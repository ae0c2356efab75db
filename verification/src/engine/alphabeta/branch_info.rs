//! Counters that tell how much of the tree a search went through.

use crate::text::decimal;
use crate::text::percent;
use crate::text::percent_of;
use crate::text::push_decimal;
use crate::text::push_text;
use vstd::prelude::*;

verus! {

/// The counters of one depth. They stop at the largest number that they can
/// hold.
#[derive(Clone, Copy, Debug, PartialEq, Eq, Structural)]
pub struct LayerInfo {
    /// The positions that a search was started on.
    pub not_pruned: u64,
    /// Of those, the positions that the table did not settle.
    pub expanded: u64,
    /// Of those, the positions in which a move ended the search early.
    pub prunes: u64,
}

/// One more, unless the counter is full.
pub open spec fn counted(counter: u64) -> u64 {
    if counter < u64::MAX {
        (counter + 1) as u64
    } else {
        counter
    }
}

fn count(counter: u64) -> (r: u64)
    ensures
        r == counted(counter),
{
    if counter < u64::MAX {
        counter + 1
    } else {
        counter
    }
}

impl LayerInfo {
    pub open spec fn spec_new() -> LayerInfo {
        LayerInfo { not_pruned: 0, expanded: 0, prunes: 0 }
    }

    #[verifier::when_used_as_spec(spec_new)]
    pub fn new() -> (r: LayerInfo)
        ensures
            r == LayerInfo::spec_new(),
    {
        LayerInfo { not_pruned: 0, expanded: 0, prunes: 0 }
    }
}

/// A count with its share of a whole, as in `12 (34%)` followed by what it
/// counts.
pub open spec fn share_text(count: u64, whole: u64, what: Seq<char>) -> Seq<char> {
    decimal(count as nat) + " ("@ + decimal(percent(count as nat, whole as nat)) + what
}

/// The positions of a depth that the table settled.
pub open spec fn settled_by_table(layer: LayerInfo) -> u64 {
    if layer.not_pruned >= layer.expanded {
        (layer.not_pruned - layer.expanded) as u64
    } else {
        0
    }
}

/// The heading of what the counters of a depth say. The depth is counted
/// from the root of the search, which stands last in the sequence.
pub open spec fn heading_text(layers: Seq<LayerInfo>, depth: int) -> Seq<char> {
    "\tDepth "@ + decimal((layers.len() - depth - 1) as nat) + (if depth == layers.len() - 1 {
        " (root) considered "@
    } else {
        " considered "@
    }) + decimal(layers[depth].not_pruned as nat) + " nodes:\n"@
}

/// What the counters of a depth say under their heading.
pub open spec fn counts_text(layer: LayerInfo) -> Seq<char> {
    "\t\t"@ + share_text(
        settled_by_table(layer),
        layer.not_pruned,
        "%) were resolved with a table lookup\n"@,
    ) + "\t\t"@ + share_text(layer.expanded, layer.not_pruned, "%) were expanded\n"@)
        + "\t\t\tof these, "@ + share_text(layer.prunes, layer.expanded, "%) caused a prune\n"@)
}

/// What the counters of a depth say.
pub open spec fn layer_text(layers: Seq<LayerInfo>, depth: int) -> Seq<char> {
    heading_text(layers, depth) + counts_text(layers[depth])
}

/// What the counters of the `n` depths nearest to the root say, the root
/// first.
pub open spec fn layers_text(layers: Seq<LayerInfo>, n: nat) -> Seq<char>
    decreases n,
{
    if n == 0 {
        Seq::empty()
    } else {
        layers_text(layers, (n - 1) as nat) + layer_text(layers, layers.len() - n)
    }
}

/// What the counters say.
pub open spec fn statistics_text(layers: Seq<LayerInfo>) -> Seq<char> {
    "Pruning statistics:\n"@ + layers_text(layers, layers.len())
}

fn push_share(text: &mut String, count: u64, whole: u64, what: &str)
    ensures
        final(text)@ == old(text)@ + share_text(count, whole, what@),
{
    push_decimal(text, count as u128);
    push_text(text, " (");
    push_decimal(text, percent_of(count, whole));
    push_text(text, what);
    proof {
        assert(final(text)@ =~= old(text)@ + share_text(count, whole, what@));
    }
}

fn push_counts(text: &mut String, layer: LayerInfo)
    ensures
        final(text)@ == old(text)@ + counts_text(layer),
{
    let settled = if layer.not_pruned >= layer.expanded {
        layer.not_pruned - layer.expanded
    } else {
        0
    };
    let ghost start = text@;
    push_text(text, "\t\t");
    push_share(text, settled, layer.not_pruned, "%) were resolved with a table lookup\n");
    let ghost first = text@;
    push_text(text, "\t\t");
    push_share(text, layer.expanded, layer.not_pruned, "%) were expanded\n");
    let ghost second = text@;
    push_text(text, "\t\t\tof these, ");
    push_share(text, layer.prunes, layer.expanded, "%) caused a prune\n");
    proof {
        let a = "\t\t"@ + share_text(
            settled_by_table(layer),
            layer.not_pruned,
            "%) were resolved with a table lookup\n"@,
        );
        let b = "\t\t"@ + share_text(layer.expanded, layer.not_pruned, "%) were expanded\n"@);
        let c = "\t\t\tof these, "@ + share_text(
            layer.prunes,
            layer.expanded,
            "%) caused a prune\n"@,
        );
        assert(first =~= start + a);
        assert(second =~= first + b);
        assert(text@ =~= second + c);
        assert(text@ =~= start + (a + b + c));
    }
}

/// The counters of every depth from 0 to the depth of the search.
pub struct BranchInfo(Vec<LayerInfo>);

impl View for BranchInfo {
    type V = Seq<LayerInfo>;

    closed spec fn view(&self) -> Seq<LayerInfo> {
        self.0@
    }
}

impl BranchInfo {
    /// Counters at zero for the depths from 0 to `depth`.
    pub fn new(depth: u8) -> (r: BranchInfo)
        ensures
            r@ == Seq::new((depth + 1) as nat, |i: int| LayerInfo::spec_new()),
    {
        let mut layers: Vec<LayerInfo> = Vec::new();
        let mut i: usize = 0;
        while i < depth as usize + 1
            invariant
                i <= depth + 1,
                layers@ == Seq::new(i as nat, |i: int| LayerInfo::spec_new()),
            decreases depth + 1 - i,
        {
            layers.push(LayerInfo::new());
            i += 1;
            proof {
                assert(layers@ =~= Seq::new(i as nat, |i: int| LayerInfo::spec_new()));
            }
        }
        BranchInfo(layers)
    }

    /// The number of depths.
    pub fn len(&self) -> (r: usize)
        ensures
            r == self@.len(),
    {
        self.0.len()
    }

    /// The counters of a depth.
    pub fn layer(&self, depth: usize) -> (r: LayerInfo)
        requires
            depth < self@.len(),
        ensures
            r == self@[depth as int],
    {
        self.0[depth]
    }

    /// Counts a position that a search was started on.
    pub fn count_visit(&mut self, depth: usize)
        requires
            depth < old(self)@.len(),
        ensures
            final(self)@ == old(self)@.update(
                depth as int,
                LayerInfo {
                    not_pruned: counted(old(self)@[depth as int].not_pruned),
                    ..old(self)@[depth as int]
                },
            ),
    {
        let layer = self.0[depth];
        self.0[depth] = LayerInfo { not_pruned: count(layer.not_pruned), ..layer };
    }

    /// Counts a position that the table did not settle.
    pub fn count_expansion(&mut self, depth: usize)
        requires
            depth < old(self)@.len(),
        ensures
            final(self)@ == old(self)@.update(
                depth as int,
                LayerInfo {
                    expanded: counted(old(self)@[depth as int].expanded),
                    ..old(self)@[depth as int]
                },
            ),
    {
        let layer = self.0[depth];
        self.0[depth] = LayerInfo { expanded: count(layer.expanded), ..layer };
    }

    /// Counts a position in which a move ended the search early.
    pub fn count_prune(&mut self, depth: usize)
        requires
            depth < old(self)@.len(),
        ensures
            final(self)@ == old(self)@.update(
                depth as int,
                LayerInfo {
                    prunes: counted(old(self)@[depth as int].prunes),
                    ..old(self)@[depth as int]
                },
            ),
    {
        let layer = self.0[depth];
        self.0[depth] = LayerInfo { prunes: count(layer.prunes), ..layer };
    }

    fn push_heading(&self, text: &mut String, depth: usize)
        requires
            depth < self@.len(),
        ensures
            final(text)@ == old(text)@ + heading_text(self@, depth as int),
    {
        push_text(text, "\tDepth ");
        push_decimal(text, (self.0.len() - depth - 1) as u128);
        if depth == self.0.len() - 1 {
            push_text(text, " (root) considered ");
        } else {
            push_text(text, " considered ");
        }
        push_decimal(text, self.0[depth].not_pruned as u128);
        push_text(text, " nodes:\n");
        proof {
            assert(final(text)@ =~= old(text)@ + heading_text(self@, depth as int));
        }
    }

    fn push_layer(&self, text: &mut String, depth: usize)
        requires
            depth < self@.len(),
        ensures
            final(text)@ == old(text)@ + layer_text(self@, depth as int),
    {
        self.push_heading(text, depth);
        push_counts(text, self.0[depth]);
        proof {
            assert(final(text)@ =~= old(text)@ + layer_text(self@, depth as int));
        }
    }

    /// What the counters say, in words: for each depth, the root first, how
    /// many positions were looked at, how many of them the table settled,
    /// how many were gone through, and in how many of those a move ended
    /// the search early.
    pub fn statistics(&self) -> (text: String)
        ensures
            text@ == statistics_text(self@),
    {
        let mut text = String::new();
        push_text(&mut text, "Pruning statistics:\n");
        let n = self.0.len();
        let mut i: usize = 0;
        while i < n
            invariant
                i <= n,
                n == self@.len(),
                text@ == "Pruning statistics:\n"@ + layers_text(self@, i as nat),
            decreases n - i,
        {
            self.push_layer(&mut text, n - 1 - i);
            i += 1;
            proof {
                assert(text@ =~= "Pruning statistics:\n"@ + layers_text(self@, i as nat));
            }
        }
        text
    }

    /// Sets every counter back to zero.
    pub fn reset_statistics(&mut self)
        ensures
            final(self)@ == Seq::new(old(self)@.len(), |i: int| LayerInfo::spec_new()),
    {
        let n = self.0.len();
        let mut i: usize = 0;
        while i < n
            invariant
                i <= n,
                self.0@.len() == n,
                forall|j: int| 0 <= j < i ==> self.0@[j] == LayerInfo::spec_new(),
            decreases n - i,
        {
            self.0[i] = LayerInfo::new();
            i += 1;
        }
        proof {
            assert(self.0@ =~= Seq::new(n as nat, |i: int| LayerInfo::spec_new()));
        }
    }
}

} // verus!
