use usertcp::seq32::is_between_wrapped;

#[test]
fn is_between_wrapped_test() {
    let _ = std::char::from_u32(34);
    // start == x, *not* in between
    assert!(!is_between_wrapped(10, 10, 11));

    // start < x:
    // S---X---E
    assert!(is_between_wrapped(10, 11, 12));
    // E---S---X
    assert!(is_between_wrapped(10, 11, 9));
    // S---E---X
    assert!(!is_between_wrapped(10, 12, 11));
    // S+E---X
    assert!(!is_between_wrapped(10, 11, 10));
    // S---X+E
    assert!(!is_between_wrapped(10, 11, 11));

    // x < start:
    // only valid case
    assert!(is_between_wrapped(10, 8, 9));
    // X---S---E
    assert!(!is_between_wrapped(10, 9, 11));
    // E---X---S
    assert!(!is_between_wrapped(10, 9, 8));
    // x+E---S
    assert!(!is_between_wrapped(10, 9, 9));
    // X---S+E
    assert!(!is_between_wrapped(9, 10, 9));
}

#[test]
fn is_between_wrapped_matches_modular_form() {
    // the predicate equals ((x - start) mod 2^32) < ((end - start) mod 2^32)
    // together with x != start, across wraparound
    let triples = [
        (10u32, 11u32, 12u32),
        (10, 11, 9),
        (u32::MAX, 0, 5),
        (0xFFFF_FFF0, 3, 0x10),
        (5, 5, 9),
        (7, 9, 7),
        (0, 0, 0),
        (0x8000_0000, 0, 1),
    ];
    for (start, x, end) in triples {
        let expected = x.wrapping_sub(start) < end.wrapping_sub(start) && start != x;
        assert_eq!(is_between_wrapped(start, x, end), expected);
    }
}

#[test]
fn is_between_wrapped_degenerate_cases() {
    // false whenever two of the three coincide
    let vals = [0u32, 1, 10, 0x7FFF_FFFF, 0x8000_0000, u32::MAX];
    for a in vals {
        for b in vals {
            assert!(!is_between_wrapped(a, a, b));
            assert!(!is_between_wrapped(a, b, b));
            assert!(!is_between_wrapped(a, b, a));
        }
    }
}
