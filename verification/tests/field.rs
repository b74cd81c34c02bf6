use progression::field::BarStateField;

#[test]
fn new_field_has_no_flag() {
    let f = BarStateField::new();
    assert_eq!(f.0, 0);
    assert!(!f.finished());
    assert!(!f.invisible());
}

#[test]
fn set_finished_sets_bit_one_only() {
    let mut f = BarStateField::new();
    f.set_finished(true);
    assert_eq!(f.0, 0b010);
    assert!(f.finished());
    assert!(!f.invisible());
    assert_eq!(f.bits(), 2);
}

#[test]
fn set_invisible_sets_bit_two_only() {
    let mut f = BarStateField::new();
    f.set_invisible(true);
    assert_eq!(f.0, 0b100);
    assert!(f.invisible());
    assert!(!f.finished());
}

#[test]
fn flags_are_independent() {
    let mut f = BarStateField(0xff);
    f.set_finished(false);
    assert_eq!(f.0, 0xfd);
    assert!(!f.finished());
    assert!(f.invisible());
    f.set_invisible(false);
    assert_eq!(f.0, 0xf9);
    f.set_finished(true);
    f.set_finished(true);
    assert_eq!(f.0, 0xfb);
}

#[test]
fn last_write_wins() {
    let mut f = BarStateField(0x40);
    f.set_invisible(true);
    f.set_invisible(false);
    assert_eq!(f.0, 0x40);
    assert!(!f.invisible());
}
