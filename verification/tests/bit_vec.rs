use packed_bits::{BitVec, Error};

#[test]
fn bit_vec_set_get_not() {
    let mut bit_vec = BitVec::new();

    for i in 0..100 {
        let len = bit_vec.len();
        assert!(len == 2 * i);
        bit_vec.push(true);

        let len = bit_vec.len();
        assert!(len == 2 * i + 1);
        bit_vec.push(false);
    }

    assert!(bit_vec.get(98).unwrap());
    assert!(!bit_vec.get(97).unwrap());

    bit_vec.set(98, false).unwrap();
    assert!(!bit_vec.get(98).unwrap());
    bit_vec.set(97, true).unwrap();
    assert!(bit_vec.get(97).unwrap());
}

#[test]
fn zeroes_ones() {
    for i in 0..100 {
        assert_eq!(BitVec::zeroes(i).len(), i);
        assert_eq!(BitVec::ones(i).len(), i);
    }
}

#[test]
fn new_is_empty() {
    let v = BitVec::new();
    assert_eq!(v.len(), 0);
    assert_eq!(v.get(0), None);
    assert_eq!(v.get(31), None);
    assert_eq!(v.get(usize::MAX), None);
}

#[test]
fn with_capacity_is_empty_and_grows() {
    for capacity in [0usize, 1, 31, 32, 33, 100, 1000] {
        let mut v = BitVec::with_capacity(capacity);
        assert_eq!(v.len(), 0);
        assert_eq!(v.get(0), None);
        assert_eq!(v.set(0, true), Err(Error::IndexError));
        v.push(true);
        assert_eq!(v.len(), 1);
        assert_eq!(v.get(0), Some(true));
    }
}

#[test]
fn zeroes_and_ones_have_the_length_asked_for() {
    for n in 0..200 {
        assert_eq!(BitVec::zeroes(n).len(), n);
        assert_eq!(BitVec::ones(n).len(), n);
    }
}

#[test]
fn zeroes_reads_false_and_ones_reads_true() {
    for n in 0..200 {
        let low = BitVec::zeroes(n);
        let high = BitVec::ones(n);
        for i in 0..n {
            assert_eq!(low.get(i), Some(false));
            assert_eq!(high.get(i), Some(true));
        }
        assert_eq!(low.get(n), None);
        assert_eq!(high.get(n), None);
        assert_eq!(low.get(n + 1), None);
        assert_eq!(high.get(n + 31), None);
    }
}

#[test]
fn lengths_at_block_boundaries() {
    for n in [0usize, 1, 31, 32, 33, 63, 64, 65, 95, 96, 97, 1024, 1025] {
        let mut v = BitVec::ones(n);
        assert_eq!(v.len(), n);
        if n > 0 {
            assert_eq!(v.get(n - 1), Some(true));
        }
        assert_eq!(v.get(n), None);
        v.push(false);
        assert_eq!(v.len(), n + 1);
        assert_eq!(v.get(n), Some(false));
        if n > 0 {
            assert_eq!(v.get(n - 1), Some(true));
        }
        assert_eq!(v.get(n + 1), None);
    }
}

#[test]
fn zeroes_five() {
    let v = BitVec::zeroes(5);
    assert_eq!(v.len(), 5);
    assert_eq!(v.get(0), Some(false));
    assert_eq!(v.get(1), Some(false));
    assert_eq!(v.get(2), Some(false));
    assert_eq!(v.get(3), Some(false));
    assert_eq!(v.get(4), Some(false));
    assert_eq!(v.get(5), None);
}

#[test]
fn alternating_pushes_then_writes() {
    let mut v = BitVec::new();
    for _ in 0..100 {
        v.push(true);
        v.push(false);
    }
    assert_eq!(v.len(), 200);
    assert_eq!(v.get(198), Some(true));
    assert_eq!(v.get(197), Some(false));
    assert_eq!(v.set(198, false), Ok(()));
    assert_eq!(v.set(197, true), Ok(()));
    assert_eq!(v.get(198), Some(false));
    assert_eq!(v.get(197), Some(true));
    assert_eq!(v.len(), 200);
}

#[test]
fn each_push_adds_one_bit_at_the_end() {
    let mut v = BitVec::new();
    let mut pushed: Vec<bool> = Vec::new();
    for k in 1..=300usize {
        let val = k % 3 == 0 || k % 7 == 1;
        v.push(val);
        pushed.push(val);
        assert_eq!(v.len(), k);
        assert_eq!(v.get(k - 1), Some(val));
        assert_eq!(v.get(k), None);
    }
    for (i, val) in pushed.iter().enumerate() {
        assert_eq!(v.get(i), Some(*val));
    }
}

#[test]
fn set_then_get_reads_the_written_bit() {
    for n in [1usize, 5, 32, 33, 64, 100] {
        for i in 0..n {
            let mut low = BitVec::zeroes(n);
            assert_eq!(low.set(i, true), Ok(()));
            assert_eq!(low.get(i), Some(true));
            let mut high = BitVec::ones(n);
            assert_eq!(high.set(i, false), Ok(()));
            assert_eq!(high.get(i), Some(false));
            for j in 0..n {
                if j != i {
                    assert_eq!(low.get(j), Some(false));
                    assert_eq!(high.get(j), Some(true));
                }
            }
            assert_eq!(low.len(), n);
            assert_eq!(high.len(), n);
            assert_eq!(low.set(i, true), Ok(()));
            assert_eq!(low.get(i), Some(true));
            assert_eq!(low.set(i, false), Ok(()));
            assert_eq!(low.get(i), Some(false));
        }
    }
}

#[test]
fn set_out_of_range_is_refused_and_changes_nothing() {
    let mut empty = BitVec::new();
    assert_eq!(empty.set(0, true), Err(Error::IndexError));
    assert_eq!(empty.len(), 0);

    for n in [0usize, 1, 31, 32, 33, 70] {
        let mut v = BitVec::new();
        for k in 0..n {
            v.push(k % 2 == 0);
        }
        for i in [n, n + 1, n + 31, n + 32, usize::MAX] {
            assert_eq!(v.get(i), None);
            assert_eq!(v.set(i, true), Err(Error::IndexError));
            assert_eq!(v.set(i, false), Err(Error::IndexError));
            assert_eq!(v.len(), n);
            for k in 0..n {
                assert_eq!(v.get(k), Some(k % 2 == 0));
            }
        }
    }
}

#[test]
fn index_error_is_the_only_error() {
    let mut v = BitVec::zeroes(3);
    let refused = v.set(3, true);
    assert!(matches!(refused, Err(Error::IndexError)));
    assert_eq!(format!("{:?}", Error::IndexError), "IndexError");
}

#[test]
fn push_after_preset_length_keeps_earlier_bits() {
    let mut v = BitVec::zeroes(40);
    v.push(true);
    v.push(true);
    assert_eq!(v.len(), 42);
    for i in 0..40 {
        assert_eq!(v.get(i), Some(false));
    }
    assert_eq!(v.get(40), Some(true));
    assert_eq!(v.get(41), Some(true));

    let mut w = BitVec::ones(64);
    w.push(false);
    assert_eq!(w.len(), 65);
    assert_eq!(w.get(63), Some(true));
    assert_eq!(w.get(64), Some(false));
    assert_eq!(w.get(65), None);
}
