use reed_solomon::gf256::{gf_div, gf_inv, gf_mul};

#[test]
fn test_gf_mul_identity() {
    for a in 0u8..=255 {
        assert_eq!(gf_mul(a, 1), a);
        assert_eq!(gf_mul(1, a), a);
        assert_eq!(gf_mul(a, 0), 0);
        assert_eq!(gf_mul(0, a), 0);
    }
}

#[test]
fn test_gf_inv() {
    for a in 1u8..=255 {
        let inv = gf_inv(a);
        assert_eq!(gf_mul(a, inv), 1, "a={} inv={}", a, inv);
    }
}

#[test]
fn test_gf_div() {
    for a in 1u8..=255 {
        for b in 1u8..=255 {
            let q = gf_div(a, b);
            assert_eq!(gf_mul(q, b), a);
        }
    }
}

#[test]
fn test_gf_mul_commutes() {
    for a in 0u8..=255 {
        for b in 0u8..=63 {
            assert_eq!(gf_mul(a, b), gf_mul(b, a));
        }
    }
}

#[test]
fn test_gf_concrete_values() {
    // alpha = 2 generates the field: 2 * 2 = 4, and the first reduction
    // appears at 2^8 = 0x11d - 0x100 = 0x1d.
    assert_eq!(gf_mul(2, 2), 4);
    assert_eq!(gf_mul(128, 2), 0x1d);
    assert_eq!(gf_mul(0x53, 0x8c), 0x01);
    assert_eq!(gf_inv(0x53), 0x8c);
    assert_eq!(gf_div(1, 0x8c), 0x53);
}
