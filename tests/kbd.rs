use keyvisor::kbd::{
    scan_levels, ColumnState, ColumnUpdate, Debouncer, Key, KeyEvent, DEBOUNCE_TICKS, N_COLS,
    N_ROWS,
};

fn feed(d: &mut Debouncer, col: usize, bits: u8) -> Vec<KeyEvent> {
    d.process_column(col, ColumnState::from_bits(bits))
}

#[test]
fn key_labels_follow_numeric_layout() {
    let expected = ['1', '2', '3', '4', '5', '6', '7', '8', '9', '*', '0', '#'];
    for row in 0..N_ROWS {
        for col in 0..N_COLS {
            let k = Key { col: col as u8, row: row as u8 };
            assert_eq!(k.char(), expected[row * N_COLS + col]);
        }
    }
    assert_eq!(Key { col: 3, row: 0 }.char(), '?');
    assert_eq!(Key { col: 0, row: 4 }.char(), '?');
}

#[test]
fn column_state_bits() {
    let mut s = ColumnState::zero();
    assert!(!s.any());
    s.set(2, true);
    assert!(s.get(2));
    assert!(!s.get(1));
    assert!(s.any());
    assert_eq!(s.bits(), 0b0100);
    s.set(0, true);
    assert_eq!(s.bits(), 0b0101);
    s.set(2, false);
    assert_eq!(s.bits(), 0b0001);
    let high = ColumnState::from_bits(0b1111_0000);
    assert!(!high.any());
    assert_eq!(high.bits(), 0);
}

#[test]
fn scan_levels_drive_one_column_low() {
    assert_eq!(scan_levels(0), vec![false, true, true]);
    assert_eq!(scan_levels(1), vec![true, false, true]);
    assert_eq!(scan_levels(2), vec![true, true, false]);
}

#[test]
fn column_update_reports_after_hold() {
    let mut u = ColumnUpdate::released();
    let active = ColumnState::from_bits(0b0010);
    for _ in 0..(DEBOUNCE_TICKS as usize + 1) {
        let r = u.apply(active);
        assert!(!r.any());
    }
    let r = u.apply(active);
    assert!(r.any());
    assert!(r.pressed_keys.get(1));
    assert_eq!(r.pressed_keys.bits(), 0b0010);
    assert_eq!(r.released_keys.bits(), 0);
    let r = u.apply(active);
    assert!(!r.any());
}

#[test]
fn column_update_from_given_state() {
    let mut u = ColumnUpdate::new(
        ColumnState::from_bits(0b0001),
        ColumnState::from_bits(0b0000),
        [DEBOUNCE_TICKS, 0, 0, 0],
    );
    let r = u.apply(ColumnState::from_bits(0));
    assert_eq!(r.released_keys.bits(), 0b0001);
    assert_eq!(r.pressed_keys.bits(), 0);
}

#[test]
fn toggling_signal_never_reports() {
    let mut d = Debouncer::new();
    for i in 0..200 {
        let bits = if i % 2 == 0 { 0b1111 } else { 0 };
        assert!(feed(&mut d, 1, bits).is_empty());
    }
}

#[test]
fn short_bursts_never_report() {
    let mut d = Debouncer::new();
    for _ in 0..20 {
        for _ in 0..(DEBOUNCE_TICKS as usize + 1) {
            assert!(feed(&mut d, 0, 0b0001).is_empty());
        }
        assert!(feed(&mut d, 0, 0).is_empty());
    }
}

#[test]
fn press_confirmed_on_twelfth_active_sample() {
    let mut d = Debouncer::new();
    for _ in 0..11 {
        assert!(feed(&mut d, 2, 0b1000).is_empty());
    }
    let ev = feed(&mut d, 2, 0b1000);
    assert_eq!(ev, vec![KeyEvent::KeyDown(Key { col: 2, row: 3 })]);
    assert!(d.key_state(2, 3).stable);
}

#[test]
fn held_key_is_not_reported_again() {
    let mut d = Debouncer::new();
    let mut downs = 0;
    for _ in 0..500 {
        downs += feed(&mut d, 0, 0b0001).len();
    }
    assert_eq!(downs, 1);
}

#[test]
fn releases_published_before_presses() {
    let mut d = Debouncer::new();
    for _ in 0..12 {
        feed(&mut d, 1, 0b0011);
    }
    let mut last = Vec::new();
    for _ in 0..12 {
        last = feed(&mut d, 1, 0b1100);
    }
    assert_eq!(
        last,
        vec![
            KeyEvent::KeyUp(Key { col: 1, row: 0 }),
            KeyEvent::KeyUp(Key { col: 1, row: 1 }),
            KeyEvent::KeyDown(Key { col: 1, row: 2 }),
            KeyEvent::KeyDown(Key { col: 1, row: 3 }),
        ]
    );
}

#[test]
fn columns_are_independent() {
    let mut d = Debouncer::new();
    for _ in 0..12 {
        feed(&mut d, 0, 0b0001);
    }
    assert!(d.key_state(0, 0).stable);
    assert!(!d.key_state(1, 0).stable);
    assert_eq!(d.key_state(1, 0).ticks, 0);
}
