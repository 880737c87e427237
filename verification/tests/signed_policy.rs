use edf_selector::signed::{select_only, Edf};

#[test]
fn select_only_all_ahead() {
    let deadlines: Vec<i8> = vec![10, 100, 127];
    let r = select_only(&deadlines, 0);
    assert_eq!(r, Some((10, 0)));
}

#[test]
fn select_only_after_clock_passed() {
    // At now = 101 the wrapped remaining values are [-91, -1, 26]:
    // overdue tasks rank first and the most overdue one wins.
    let deadlines: Vec<i8> = vec![10, 100, 127];
    let r = select_only(&deadlines, 101);
    assert_eq!(r, Some((-91, 0)));
}

#[test]
fn select_only_empty() {
    let deadlines: Vec<i8> = Vec::new();
    assert_eq!(select_only(&deadlines, 17), None);
}

#[test]
fn select_only_tie_breaks_to_first() {
    let deadlines: Vec<i8> = vec![7, 3, 3, 9];
    let r = select_only(&deadlines, 0);
    assert_eq!(r, Some((3, 1)));
}

#[test]
fn select_only_single() {
    let deadlines: Vec<i8> = vec![-5];
    let r = select_only(&deadlines, 0);
    assert_eq!(r, Some((-5, 0)));
}

#[test]
fn admit_wraps_into_signed_range() {
    // Admitting a relative deadline of 127 at now = 10 wraps the
    // absolute deadline to -119; selecting right away still sees the
    // full 127 ticks remaining.
    let mut edf = Edf::new();
    edf.advance(10);
    edf.pend(127, "t");
    assert_eq!(edf.tasks[0].abs_dl, -119);
    let r = edf.select_and_remove();
    let (rem, task) = r.expect("one task is pending");
    assert_eq!(rem, 127);
    assert_eq!(task.id, "t");
    assert_eq!(task.abs_dl, -119);
    assert_eq!(edf.len(), 0);
}

#[test]
fn select_and_remove_empty_store() {
    let mut edf = Edf::new();
    assert!(edf.select_and_remove().is_none());
    assert_eq!(edf.len(), 0);
    assert_eq!(edf.now, 0);
}

#[test]
fn select_and_remove_shrinks_by_one() {
    let mut edf = Edf::new();
    edf.pend(10, "t1");
    edf.pend(20, "t2");
    edf.pend(30, "t3");
    assert_eq!(edf.len(), 3);
    assert!(edf.select_and_remove().is_some());
    assert_eq!(edf.len(), 2);
    assert!(edf.select_and_remove().is_some());
    assert_eq!(edf.len(), 1);
    assert!(edf.select_and_remove().is_some());
    assert_eq!(edf.len(), 0);
    assert!(edf.select_and_remove().is_none());
    assert_eq!(edf.len(), 0);
}

#[test]
fn schedule_advances_then_selects() {
    let mut edf = Edf::new();
    edf.pend(10, "t1");
    edf.pend(127, "t2");
    let r = edf.schedule(20);
    assert_eq!(edf.now, 20);
    let (rem, task) = r.expect("two tasks are pending");
    // remaining values at now = 20: t1 at -10 (overdue), t2 at 107.
    assert_eq!(rem, -10);
    assert_eq!(task.id, "t1");
    assert_eq!(edf.len(), 1);
}

#[test]
fn schedule_on_empty_store() {
    let mut edf = Edf::new();
    let r = edf.schedule(50);
    assert!(r.is_none());
    assert_eq!(edf.now, 50);
    assert_eq!(edf.len(), 0);
}

#[test]
fn most_overdue_wins_among_overdue() {
    // At now = 101, deadline 90 is 11 ticks past and deadline 100 one
    // tick past: the most overdue task is selected first.
    let deadlines: Vec<i8> = vec![100, 90];
    let r = select_only(&deadlines, 101);
    assert_eq!(r, Some((-11, 1)));
}

#[test]
fn advance_wraps_clock() {
    let mut edf = Edf::new();
    edf.advance(127);
    assert_eq!(edf.now, 127);
    edf.advance(1);
    assert_eq!(edf.now, -128);
    edf.advance(-1);
    assert_eq!(edf.now, 127);
}

#[test]
fn remove_at_deletes_exactly_that_entry() {
    let mut edf = Edf::new();
    edf.pend(1, "a");
    edf.pend(2, "b");
    edf.pend(3, "c");
    let t = edf.remove_at(1);
    assert_eq!(t.id, "b");
    assert_eq!(edf.len(), 2);
    assert_eq!(edf.tasks[0].id, "a");
    assert_eq!(edf.tasks[1].id, "c");
}

#[test]
fn driver_cycle_sequence() {
    // A full cycle in the style of the demo driver: admissions
    // interleaved with scheduling at several tick sizes.
    let mut edf = Edf::new();
    edf.pend(10, "t1");
    edf.pend(127, "t2");
    let r1 = edf.schedule(20);
    assert_eq!(r1.map(|(rem, t)| (rem, t.id)), Some((-10, "t1")));
    edf.pend(110, "t3");
    let r2 = edf.schedule(0);
    // remaining at now = 20: t2 at 107, t3 at 110.
    assert_eq!(r2.map(|(rem, t)| (rem, t.id)), Some((107, "t2")));
    let r3 = edf.schedule(50);
    // only t3 left, deadline 130 wrapped to -126; at now = 70 its
    // remaining is 60.
    assert_eq!(r3.map(|(rem, t)| (rem, t.id)), Some((60, "t3")));
    let r4 = edf.schedule(0);
    assert_eq!(r4.map(|(rem, t)| (rem, t.id)), None);
}
