use russh_rules::tally::{DataTally, WINDOW_CHECK_TOTAL};

#[test]
fn window_check_expects_two_writers_of_64_kib() {
    assert_eq!(WINDOW_CHECK_TOTAL, 131072);
}

#[test]
fn tally_stops_exactly_at_the_total() {
    let mut t = DataTally::new(WINDOW_CHECK_TOTAL);
    assert!(!t.on_data(32768));
    assert!(!t.on_data(0));
    assert!(!t.on_data(65536));
    assert_eq!(t.remaining(), 32768);
    assert!(t.on_data(32768));
    assert_eq!(t.remaining(), 0);
}

#[test]
fn tally_of_nothing_is_done_at_once() {
    let mut t = DataTally::new(0);
    assert!(t.on_data(0));
}
