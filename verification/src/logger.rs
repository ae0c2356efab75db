//! A log that keeps the lines it is given until they are fetched.

use vstd::prelude::*;

verus! {

/// A log with a level of detail. A line is kept if its own level is not
/// above that of the log: 0 keeps next to nothing, 10 everything.
#[derive(Clone)]
pub struct Logger {
    level: u8,
    lines: Vec<String>,
}

impl Logger {
    /// The level of the log.
    pub closed spec fn level(&self) -> u8 {
        self.level
    }

    /// The lines that the log holds, oldest first.
    pub closed spec fn lines(&self) -> Seq<String> {
        self.lines@
    }

    /// An empty log.
    pub fn new(level: u8) -> (logger: Logger)
        ensures
            logger.level() == level,
            logger.lines().len() == 0,
    {
        Logger { level, lines: Vec::new() }
    }

    /// Whether the log keeps lines of a level.
    pub fn keeps(&self, level: u8) -> (r: bool)
        ensures
            r == (level <= self.level()),
    {
        level <= self.level
    }

    /// Adds a line to the log, if the log keeps lines of its level.
    pub fn log(&mut self, level: u8, msg: &str)
        ensures
            final(self).level() == old(self).level(),
            level <= old(self).level() ==> final(self).lines().len() == old(self).lines().len() + 1
                && final(self).lines().last()@ == msg@ && final(self).lines().drop_last() == old(
                self,
            ).lines(),
            level > old(self).level() ==> final(self).lines() == old(self).lines(),
    {
        if level <= self.level {
            self.lines.push(msg.to_owned());
            proof {
                assert(final(self).lines().drop_last() =~= old(self).lines());
            }
        }
    }

    /// Adds a line to the log, if the log keeps lines of its level, and
    /// makes the line only then.
    pub fn log_lazy<F: FnOnce() -> String>(&mut self, level: u8, msg: F)
        requires
            level <= old(self).level() ==> msg.requires(()),
        ensures
            final(self).level() == old(self).level(),
            level <= old(self).level() ==> final(self).lines().len() == old(self).lines().len() + 1
                && msg.ensures((), final(self).lines().last()) && final(self).lines().drop_last()
                == old(self).lines(),
            level > old(self).level() ==> final(self).lines() == old(self).lines(),
    {
        if level <= self.level {
            let line = msg();
            self.lines.push(line);
            proof {
                assert(final(self).lines().drop_last() =~= old(self).lines());
            }
        }
    }

    /// Hands out the lines that the log holds and leaves it empty.
    pub fn take_lines(&mut self) -> (lines: Vec<String>)
        ensures
            lines@ == old(self).lines(),
            final(self).lines().len() == 0,
            final(self).level() == old(self).level(),
    {
        let mut lines: Vec<String> = Vec::new();
        std::mem::swap(&mut self.lines, &mut lines);
        lines
    }
}

} // verus!
