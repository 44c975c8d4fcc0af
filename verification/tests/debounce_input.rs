use sk9822::debounce::Debounce;

#[test]
fn suppresses_flicker_inside_settle_window() {
    // settle duration 10 time-units; raw flips twice within 5 units
    let mut d: Debounce<10> = Debounce::new(0, false);
    assert!(!d.raising_edge(3, true));
    assert!(!d.falling_edge(5, false));
    assert!(!d.is_high(6, true));
    assert!(d.is_low(7, true));
}

#[test]
fn sustained_flip_gives_exactly_one_edge() {
    let mut d: Debounce<10> = Debounce::new(0, false);
    // the raw level goes high and stays high; the first poll past the
    // window reports the one rising edge
    assert!(!d.raising_edge(10, true)); // still inside: 10 - 0 is not > 10
    assert!(d.raising_edge(11, true));
    assert!(!d.raising_edge(12, true));
    assert!(!d.falling_edge(13, true));
    assert!(d.is_high(14, true));
}

#[test]
fn edge_direction_matches_level() {
    let mut d: Debounce<10> = Debounce::new(0, true);
    assert!(!d.raising_edge(20, false)); // change accepted, but downward
    let mut d2: Debounce<10> = Debounce::new(0, true);
    assert!(d2.falling_edge(20, false));
    assert!(d2.is_low(21, false));
    // and back up after the settle window
    assert!(d2.raising_edge(31, true));
}

#[test]
fn level_queries_are_idempotent() {
    let mut d: Debounce<10> = Debounce::new(100, true);
    // no raw change, no elapsed settle time: the answer never moves
    for _ in 0..50 {
        assert!(d.is_high(105, true));
        assert!(!d.is_low(105, true));
        assert!(!d.raising_edge(105, true));
        assert!(!d.falling_edge(105, true));
    }
    // even well past the window, an unchanged raw level reports nothing
    for _ in 0..50 {
        assert!(d.is_high(500, true));
        assert!(!d.raising_edge(500, true));
    }
}

#[test]
fn settle_window_restarts_at_accepted_change() {
    let mut d: Debounce<10> = Debounce::new(0, false);
    assert!(d.raising_edge(11, true));
    // the change at 11 restarts the window: a flip at 21 is suppressed
    assert!(!d.falling_edge(21, false));
    assert!(d.is_high(21, false));
    // and accepted once the new window has passed
    assert!(d.falling_edge(22, false));
}
