use packed_bits::Bits32;

#[test]
fn bits_set_get_not() {
    let mut bits = Bits32::new();

    for i in (0..32u8).into_iter().step_by(2) {
        bits.set(i, true);
    }

    assert!(bits.get(4));
    assert!(!bits.get(3));
    assert!(bits.get(0));
    assert!(!bits.get(31));

    bits.not(4);
    assert!(!bits.get(4))
}

#[test]
fn new_and_zeroes_read_false_everywhere() {
    let fresh = Bits32::new();
    let cleared = Bits32::zeroes();
    for p in 0..32u8 {
        assert!(!fresh.get(p));
        assert!(!cleared.get(p));
    }
}

#[test]
fn ones_reads_true_everywhere() {
    let bits = Bits32::ones();
    for p in 0..32u8 {
        assert!(bits.get(p));
    }
}

#[test]
fn toggle_changes_the_flag_and_no_other() {
    for p in 0..32u8 {
        let mut low = Bits32::zeroes();
        let mut high = Bits32::ones();
        let low_before = low.get(p);
        let high_before = high.get(p);
        low.not(p);
        high.not(p);
        assert_ne!(low.get(p), low_before);
        assert_ne!(high.get(p), high_before);
        for q in 0..32u8 {
            if q != p {
                assert!(!low.get(q));
                assert!(high.get(q));
            }
        }
        low.not(p);
        high.not(p);
        assert_eq!(low.get(p), low_before);
        assert_eq!(high.get(p), high_before);
    }
}

#[test]
fn set_on_raises_one_flag() {
    for p in 0..32u8 {
        let mut bits = Bits32::zeroes();
        bits.set_on(p);
        for q in 0..32u8 {
            assert_eq!(bits.get(q), q == p);
        }
        bits.set_on(p);
        assert!(bits.get(p));
    }
}

#[test]
fn set_off_clears_one_flag() {
    for p in 0..32u8 {
        let mut bits = Bits32::ones();
        bits.set_off(p);
        for q in 0..32u8 {
            assert_eq!(bits.get(q), q != p);
        }
        bits.set_off(p);
        assert!(!bits.get(p));
    }
}

#[test]
fn set_writes_the_given_value() {
    let mut bits = Bits32::zeroes();
    bits.set(0, true);
    bits.set(31, true);
    bits.set(17, true);
    bits.set(17, false);
    assert!(bits.get(0));
    assert!(bits.get(31));
    assert!(!bits.get(17));
    assert!(!bits.get(1));
    assert!(!bits.get(30));
    bits.set(31, false);
    assert!(!bits.get(31));
    assert!(bits.get(0));
}

#[test]
fn copies_are_independent() {
    let mut first = Bits32::zeroes();
    let second = first;
    first.set(9, true);
    assert!(first.get(9));
    assert!(!second.get(9));
}
