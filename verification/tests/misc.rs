use random_chess::engine::alphabeta::branch_info::BranchInfo;
use random_chess::engine::alphabeta::branch_info::LayerInfo;
use random_chess::text::percent_of;
use random_chess::text::push_decimal;
use random_chess::text::push_text;
use random_chess::Deadline;
use random_chess::Logger;

fn decimal(n: u128) -> String {
    let mut text = String::new();
    push_decimal(&mut text, n);
    text
}

#[test]
fn numbers_are_written_in_decimal_digits() {
    assert_eq!(decimal(0), "0");
    assert_eq!(decimal(7), "7");
    assert_eq!(decimal(10), "10");
    assert_eq!(decimal(1234567890), "1234567890");
    assert_eq!(decimal(u64::MAX as u128), "18446744073709551615");
    assert_eq!(decimal(u128::MAX), format!("{}", u128::MAX));
    let mut text = String::from("n = ");
    push_decimal(&mut text, 42);
    push_text(&mut text, "!");
    assert_eq!(text, "n = 42!");
}

#[test]
fn percent_rounds_down_and_is_zero_of_nothing() {
    assert_eq!(percent_of(1, 3), 33);
    assert_eq!(percent_of(2, 3), 66);
    assert_eq!(percent_of(3, 3), 100);
    assert_eq!(percent_of(0, 5), 0);
    assert_eq!(percent_of(5, 0), 0);
    assert_eq!(percent_of(u64::MAX, 1), u64::MAX as u128 * 100);
}

#[test]
fn the_log_keeps_the_lines_of_its_level() {
    let mut logger = Logger::new(5);
    assert!(logger.keeps(5));
    assert!(logger.keeps(0));
    assert!(!logger.keeps(6));
    logger.log(5, "five");
    logger.log(6, "six");
    logger.log(0, "zero");
    let mut made = false;
    logger.log_lazy(7, || {
        made = true;
        String::from("seven")
    });
    assert!(!made);
    logger.log_lazy(4, || String::from("four"));
    assert_eq!(logger.take_lines(), vec!["five", "zero", "four"]);
    assert_eq!(logger.take_lines().len(), 0);
    logger.log(1, "one");
    assert_eq!(logger.take_lines(), vec!["one"]);
    let mut silent = Logger::new(0);
    silent.log(1, "one");
    assert_eq!(silent.take_lines().len(), 0);
}

#[test]
fn a_deadline_expires_when_its_time_has_come() {
    assert!(Deadline::from_now(0).expired());
    assert!(!Deadline::from_now(60_000).expired());
    assert!(!Deadline::never().expired());
    assert!(!Deadline::from_now(u64::MAX).expired());
    let deadline = Deadline::from_now(20);
    let start = std::time::Instant::now();
    while start.elapsed().as_millis() < 40 {}
    assert!(deadline.expired());
    let copy = deadline;
    assert!(copy.expired());
}

#[test]
fn the_counters_of_a_search_start_at_zero() {
    assert_eq!(
        LayerInfo::new(),
        LayerInfo {
            not_pruned: 0,
            expanded: 0,
            prunes: 0
        }
    );
    let info = BranchInfo::new(3);
    assert_eq!(info.len(), 4);
    for depth in 0..4 {
        assert_eq!(info.layer(depth), LayerInfo::new());
    }
    assert_eq!(BranchInfo::new(0).len(), 1);
    assert_eq!(BranchInfo::new(255).len(), 256);
}

#[test]
fn the_counters_of_a_search_are_told_in_words() {
    let mut info = BranchInfo::new(1);
    for _ in 0..3 {
        info.count_visit(1);
    }
    info.count_expansion(1);
    info.count_expansion(1);
    info.count_prune(1);
    for _ in 0..8 {
        info.count_visit(0);
    }
    info.count_expansion(0);
    assert_eq!(
        info.layer(1),
        LayerInfo {
            not_pruned: 3,
            expanded: 2,
            prunes: 1
        }
    );
    assert_eq!(
        info.statistics(),
        "Pruning statistics:\n\
         \tDepth 0 (root) considered 3 nodes:\n\
         \t\t1 (33%) were resolved with a table lookup\n\
         \t\t2 (66%) were expanded\n\
         \t\t\tof these, 1 (50%) caused a prune\n\
         \tDepth 1 considered 8 nodes:\n\
         \t\t7 (87%) were resolved with a table lookup\n\
         \t\t1 (12%) were expanded\n\
         \t\t\tof these, 0 (0%) caused a prune\n"
    );
    info.reset_statistics();
    assert_eq!(info.len(), 2);
    assert_eq!(info.layer(0), LayerInfo::new());
    assert_eq!(info.layer(1), LayerInfo::new());
    assert_eq!(
        info.statistics(),
        "Pruning statistics:\n\
         \tDepth 0 (root) considered 0 nodes:\n\
         \t\t0 (0%) were resolved with a table lookup\n\
         \t\t0 (0%) were expanded\n\
         \t\t\tof these, 0 (0%) caused a prune\n\
         \tDepth 1 considered 0 nodes:\n\
         \t\t0 (0%) were resolved with a table lookup\n\
         \t\t0 (0%) were expanded\n\
         \t\t\tof these, 0 (0%) caused a prune\n"
    );
}

#[test]
fn a_deadline_has_expired_once_its_budget_is_spent() {
    let deadline = Deadline::from_now(5);
    assert_eq!(deadline.get_budget(), Some(5));
    assert!(!deadline.expired_after(0));
    assert!(!deadline.expired_after(4));
    assert!(deadline.expired_after(5));
    assert!(deadline.expired_after(6));
    assert!(deadline.expired_after(u128::MAX));
    let at_once = Deadline::from_now(0);
    assert_eq!(at_once.get_budget(), Some(0));
    assert!(at_once.expired_after(0));
    let longest = Deadline::from_now(u64::MAX);
    assert_eq!(longest.get_budget(), Some(u64::MAX));
    assert!(!longest.expired_after(18_446_744_073_709_551_614));
    assert!(longest.expired_after(18_446_744_073_709_551_615));
    let never = Deadline::never();
    assert_eq!(never.get_budget(), None);
    assert!(!never.expired_after(0));
    assert!(!never.expired_after(u128::MAX));
}
