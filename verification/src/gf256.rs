use vstd::prelude::*;

verus! {

// GF(2^8) arithmetic for the field generated by the primitive polynomial
// x^8 + x^4 + x^3 + x^2 + 1 (0x11d), the field used by QR codes and most
// Reed-Solomon deployments.  Addition is XOR; multiplication is modelled
// through the powers of the generator alpha = x.

/// One multiplication of a field element by the generator alpha: double the
/// byte and reduce by the primitive polynomial when the ninth bit appears
/// (0x11d truncated to eight bits is 0x1d).
pub open spec fn gf_step(x: u8) -> u8 {
    if x & 0x80u8 != 0 {
        (x << 1) ^ 0x1du8
    } else {
        x << 1
    }
}

/// alpha^i, defined by repeated doubling from alpha^0 = 1.
pub open spec fn pow255(i: nat) -> u8
    decreases i,
{
    if i == 0 {
        1u8
    } else {
        gf_step(pow255((i - 1) as nat))
    }
}

/// The discrete logarithm of a nonzero field element: the exponent i < 255
/// with alpha^i == a.
pub open spec fn dlog(a: u8) -> nat {
    choose|i: nat| i < 255 && pow255(i) == a
}

/// Field multiplication, through the exponential representation.
pub open spec fn gmul(a: u8, b: u8) -> u8 {
    if a == 0 || b == 0 {
        0u8
    } else {
        pow255((dlog(a) + dlog(b)) as nat)
    }
}

/// Field division (the divisor must be nonzero for the result to be
/// meaningful).
pub open spec fn gdiv(a: u8, b: u8) -> u8 {
    if a == 0 {
        0u8
    } else {
        pow255((dlog(a) + 255 - dlog(b)) as nat)
    }
}

/// Multiplicative inverse of a nonzero field element.
pub open spec fn ginv(a: u8) -> u8 {
    pow255((255 - dlog(a)) as nat)
}

proof fn lemma_step_nonzero(x: u8)
    requires
        x != 0,
    ensures
        gf_step(x) != 0,
{
    assert(x != 0 ==> (if x & 0x80u8 != 0 {
        (x << 1) ^ 0x1du8
    } else {
        x << 1
    }) != 0) by (bit_vector);
}

proof fn lemma_step_injective(x: u8, y: u8)
    requires
        gf_step(x) == gf_step(y),
    ensures
        x == y,
{
    assert((if x & 0x80u8 != 0 {
        (x << 1) ^ 0x1du8
    } else {
        x << 1
    }) == (if y & 0x80u8 != 0 {
        (y << 1) ^ 0x1du8
    } else {
        y << 1
    }) ==> x == y) by (bit_vector);
}

pub proof fn lemma_xor_zero(a: u8)
    ensures
        a ^ 0 == a,
{
    assert(a ^ 0 == a) by (bit_vector);
}

pub proof fn lemma_xor_comm(a: u8, b: u8)
    ensures
        a ^ b == b ^ a,
{
    assert(a ^ b == b ^ a) by (bit_vector);
}

pub proof fn lemma_xor_assoc(a: u8, b: u8, c: u8)
    ensures
        (a ^ b) ^ c == a ^ (b ^ c),
{
    assert((a ^ b) ^ c == a ^ (b ^ c)) by (bit_vector);
}

pub proof fn lemma_pow_nonzero(i: nat)
    ensures
        pow255(i) != 0,
    decreases i,
{
    if i == 0 {
    } else {
        lemma_pow_nonzero((i - 1) as nat);
        lemma_step_nonzero(pow255((i - 1) as nat));
    }
}

/// The generator walks through `steps` values different from 1 and then
/// reaches 1.
spec fn chain_ok(x: u8, steps: nat) -> bool
    decreases steps,
{
    if steps == 0 {
        x == 1
    } else {
        x != 1 && chain_ok(gf_step(x), (steps - 1) as nat)
    }
}

proof fn lemma_chain(j: nat, steps: nat)
    requires
        chain_ok(pow255(j), steps),
    ensures
        forall|d: nat| j <= d < j + steps ==> pow255(d) != 1,
        pow255((j + steps) as nat) == 1,
    decreases steps,
{
    if steps == 0 {
    } else {
        assert(pow255((j + 1) as nat) == gf_step(pow255(j)));
        lemma_chain((j + 1) as nat, (steps - 1) as nat);
        assert forall|d: nat| j <= d < j + steps implies pow255(d) != 1 by {
            if d != j {
                assert(j + 1 <= d < j + 1 + (steps - 1));
            }
        }
    }
}


proof fn lemma_cycle_seg0()
    ensures
        chain_ok(9u8, 32),
{
    assert(
        (if 142u8 & 0x80u8 != 0 { (142u8 << 1) ^ 0x1du8 } else { 142u8 << 1 }) == 1u8 &&
        (if 71u8 & 0x80u8 != 0 { (71u8 << 1) ^ 0x1du8 } else { 71u8 << 1 }) == 142u8 &&
        (if 173u8 & 0x80u8 != 0 { (173u8 << 1) ^ 0x1du8 } else { 173u8 << 1 }) == 71u8 &&
        (if 216u8 & 0x80u8 != 0 { (216u8 << 1) ^ 0x1du8 } else { 216u8 << 1 }) == 173u8 &&
        (if 108u8 & 0x80u8 != 0 { (108u8 << 1) ^ 0x1du8 } else { 108u8 << 1 }) == 216u8 &&
        (if 54u8 & 0x80u8 != 0 { (54u8 << 1) ^ 0x1du8 } else { 54u8 << 1 }) == 108u8 &&
        (if 27u8 & 0x80u8 != 0 { (27u8 << 1) ^ 0x1du8 } else { 27u8 << 1 }) == 54u8 &&
        (if 131u8 & 0x80u8 != 0 { (131u8 << 1) ^ 0x1du8 } else { 131u8 << 1 }) == 27u8 &&
        (if 207u8 & 0x80u8 != 0 { (207u8 << 1) ^ 0x1du8 } else { 207u8 << 1 }) == 131u8 &&
        (if 233u8 & 0x80u8 != 0 { (233u8 << 1) ^ 0x1du8 } else { 233u8 << 1 }) == 207u8 &&
        (if 250u8 & 0x80u8 != 0 { (250u8 << 1) ^ 0x1du8 } else { 250u8 << 1 }) == 233u8 &&
        (if 125u8 & 0x80u8 != 0 { (125u8 << 1) ^ 0x1du8 } else { 125u8 << 1 }) == 250u8 &&
        (if 176u8 & 0x80u8 != 0 { (176u8 << 1) ^ 0x1du8 } else { 176u8 << 1 }) == 125u8 &&
        (if 88u8 & 0x80u8 != 0 { (88u8 << 1) ^ 0x1du8 } else { 88u8 << 1 }) == 176u8 &&
        (if 44u8 & 0x80u8 != 0 { (44u8 << 1) ^ 0x1du8 } else { 44u8 << 1 }) == 88u8 &&
        (if 22u8 & 0x80u8 != 0 { (22u8 << 1) ^ 0x1du8 } else { 22u8 << 1 }) == 44u8 &&
        (if 11u8 & 0x80u8 != 0 { (11u8 << 1) ^ 0x1du8 } else { 11u8 << 1 }) == 22u8 &&
        (if 139u8 & 0x80u8 != 0 { (139u8 << 1) ^ 0x1du8 } else { 139u8 << 1 }) == 11u8 &&
        (if 203u8 & 0x80u8 != 0 { (203u8 << 1) ^ 0x1du8 } else { 203u8 << 1 }) == 139u8 &&
        (if 235u8 & 0x80u8 != 0 { (235u8 << 1) ^ 0x1du8 } else { 235u8 << 1 }) == 203u8 &&
        (if 251u8 & 0x80u8 != 0 { (251u8 << 1) ^ 0x1du8 } else { 251u8 << 1 }) == 235u8 &&
        (if 243u8 & 0x80u8 != 0 { (243u8 << 1) ^ 0x1du8 } else { 243u8 << 1 }) == 251u8 &&
        (if 247u8 & 0x80u8 != 0 { (247u8 << 1) ^ 0x1du8 } else { 247u8 << 1 }) == 243u8 &&
        (if 245u8 & 0x80u8 != 0 { (245u8 << 1) ^ 0x1du8 } else { 245u8 << 1 }) == 247u8 &&
        (if 244u8 & 0x80u8 != 0 { (244u8 << 1) ^ 0x1du8 } else { 244u8 << 1 }) == 245u8 &&
        (if 122u8 & 0x80u8 != 0 { (122u8 << 1) ^ 0x1du8 } else { 122u8 << 1 }) == 244u8 &&
        (if 61u8 & 0x80u8 != 0 { (61u8 << 1) ^ 0x1du8 } else { 61u8 << 1 }) == 122u8 &&
        (if 144u8 & 0x80u8 != 0 { (144u8 << 1) ^ 0x1du8 } else { 144u8 << 1 }) == 61u8 &&
        (if 72u8 & 0x80u8 != 0 { (72u8 << 1) ^ 0x1du8 } else { 72u8 << 1 }) == 144u8 &&
        (if 36u8 & 0x80u8 != 0 { (36u8 << 1) ^ 0x1du8 } else { 36u8 << 1 }) == 72u8 &&
        (if 18u8 & 0x80u8 != 0 { (18u8 << 1) ^ 0x1du8 } else { 18u8 << 1 }) == 36u8 &&
        (if 9u8 & 0x80u8 != 0 { (9u8 << 1) ^ 0x1du8 } else { 9u8 << 1 }) == 18u8
    ) by (bit_vector);
    assert(chain_ok(1u8, 0));
    assert(chain_ok(142u8, 1));
    assert(chain_ok(71u8, 2));
    assert(chain_ok(173u8, 3));
    assert(chain_ok(216u8, 4));
    assert(chain_ok(108u8, 5));
    assert(chain_ok(54u8, 6));
    assert(chain_ok(27u8, 7));
    assert(chain_ok(131u8, 8));
    assert(chain_ok(207u8, 9));
    assert(chain_ok(233u8, 10));
    assert(chain_ok(250u8, 11));
    assert(chain_ok(125u8, 12));
    assert(chain_ok(176u8, 13));
    assert(chain_ok(88u8, 14));
    assert(chain_ok(44u8, 15));
    assert(chain_ok(22u8, 16));
    assert(chain_ok(11u8, 17));
    assert(chain_ok(139u8, 18));
    assert(chain_ok(203u8, 19));
    assert(chain_ok(235u8, 20));
    assert(chain_ok(251u8, 21));
    assert(chain_ok(243u8, 22));
    assert(chain_ok(247u8, 23));
    assert(chain_ok(245u8, 24));
    assert(chain_ok(244u8, 25));
    assert(chain_ok(122u8, 26));
    assert(chain_ok(61u8, 27));
    assert(chain_ok(144u8, 28));
    assert(chain_ok(72u8, 29));
    assert(chain_ok(36u8, 30));
    assert(chain_ok(18u8, 31));
    assert(chain_ok(9u8, 32));
}


proof fn lemma_cycle_seg1()
    requires
        chain_ok(9u8, 32),
    ensures
        chain_ok(65u8, 64),
{
    assert(
        (if 138u8 & 0x80u8 != 0 { (138u8 << 1) ^ 0x1du8 } else { 138u8 << 1 }) == 9u8 &&
        (if 69u8 & 0x80u8 != 0 { (69u8 << 1) ^ 0x1du8 } else { 69u8 << 1 }) == 138u8 &&
        (if 172u8 & 0x80u8 != 0 { (172u8 << 1) ^ 0x1du8 } else { 172u8 << 1 }) == 69u8 &&
        (if 86u8 & 0x80u8 != 0 { (86u8 << 1) ^ 0x1du8 } else { 86u8 << 1 }) == 172u8 &&
        (if 43u8 & 0x80u8 != 0 { (43u8 << 1) ^ 0x1du8 } else { 43u8 << 1 }) == 86u8 &&
        (if 155u8 & 0x80u8 != 0 { (155u8 << 1) ^ 0x1du8 } else { 155u8 << 1 }) == 43u8 &&
        (if 195u8 & 0x80u8 != 0 { (195u8 << 1) ^ 0x1du8 } else { 195u8 << 1 }) == 155u8 &&
        (if 239u8 & 0x80u8 != 0 { (239u8 << 1) ^ 0x1du8 } else { 239u8 << 1 }) == 195u8 &&
        (if 249u8 & 0x80u8 != 0 { (249u8 << 1) ^ 0x1du8 } else { 249u8 << 1 }) == 239u8 &&
        (if 242u8 & 0x80u8 != 0 { (242u8 << 1) ^ 0x1du8 } else { 242u8 << 1 }) == 249u8 &&
        (if 121u8 & 0x80u8 != 0 { (121u8 << 1) ^ 0x1du8 } else { 121u8 << 1 }) == 242u8 &&
        (if 178u8 & 0x80u8 != 0 { (178u8 << 1) ^ 0x1du8 } else { 178u8 << 1 }) == 121u8 &&
        (if 89u8 & 0x80u8 != 0 { (89u8 << 1) ^ 0x1du8 } else { 89u8 << 1 }) == 178u8 &&
        (if 162u8 & 0x80u8 != 0 { (162u8 << 1) ^ 0x1du8 } else { 162u8 << 1 }) == 89u8 &&
        (if 81u8 & 0x80u8 != 0 { (81u8 << 1) ^ 0x1du8 } else { 81u8 << 1 }) == 162u8 &&
        (if 166u8 & 0x80u8 != 0 { (166u8 << 1) ^ 0x1du8 } else { 166u8 << 1 }) == 81u8 &&
        (if 83u8 & 0x80u8 != 0 { (83u8 << 1) ^ 0x1du8 } else { 83u8 << 1 }) == 166u8 &&
        (if 167u8 & 0x80u8 != 0 { (167u8 << 1) ^ 0x1du8 } else { 167u8 << 1 }) == 83u8 &&
        (if 221u8 & 0x80u8 != 0 { (221u8 << 1) ^ 0x1du8 } else { 221u8 << 1 }) == 167u8 &&
        (if 224u8 & 0x80u8 != 0 { (224u8 << 1) ^ 0x1du8 } else { 224u8 << 1 }) == 221u8 &&
        (if 112u8 & 0x80u8 != 0 { (112u8 << 1) ^ 0x1du8 } else { 112u8 << 1 }) == 224u8 &&
        (if 56u8 & 0x80u8 != 0 { (56u8 << 1) ^ 0x1du8 } else { 56u8 << 1 }) == 112u8 &&
        (if 28u8 & 0x80u8 != 0 { (28u8 << 1) ^ 0x1du8 } else { 28u8 << 1 }) == 56u8 &&
        (if 14u8 & 0x80u8 != 0 { (14u8 << 1) ^ 0x1du8 } else { 14u8 << 1 }) == 28u8 &&
        (if 7u8 & 0x80u8 != 0 { (7u8 << 1) ^ 0x1du8 } else { 7u8 << 1 }) == 14u8 &&
        (if 141u8 & 0x80u8 != 0 { (141u8 << 1) ^ 0x1du8 } else { 141u8 << 1 }) == 7u8 &&
        (if 200u8 & 0x80u8 != 0 { (200u8 << 1) ^ 0x1du8 } else { 200u8 << 1 }) == 141u8 &&
        (if 100u8 & 0x80u8 != 0 { (100u8 << 1) ^ 0x1du8 } else { 100u8 << 1 }) == 200u8 &&
        (if 50u8 & 0x80u8 != 0 { (50u8 << 1) ^ 0x1du8 } else { 50u8 << 1 }) == 100u8 &&
        (if 25u8 & 0x80u8 != 0 { (25u8 << 1) ^ 0x1du8 } else { 25u8 << 1 }) == 50u8 &&
        (if 130u8 & 0x80u8 != 0 { (130u8 << 1) ^ 0x1du8 } else { 130u8 << 1 }) == 25u8 &&
        (if 65u8 & 0x80u8 != 0 { (65u8 << 1) ^ 0x1du8 } else { 65u8 << 1 }) == 130u8
    ) by (bit_vector);

    assert(chain_ok(138u8, 33));
    assert(chain_ok(69u8, 34));
    assert(chain_ok(172u8, 35));
    assert(chain_ok(86u8, 36));
    assert(chain_ok(43u8, 37));
    assert(chain_ok(155u8, 38));
    assert(chain_ok(195u8, 39));
    assert(chain_ok(239u8, 40));
    assert(chain_ok(249u8, 41));
    assert(chain_ok(242u8, 42));
    assert(chain_ok(121u8, 43));
    assert(chain_ok(178u8, 44));
    assert(chain_ok(89u8, 45));
    assert(chain_ok(162u8, 46));
    assert(chain_ok(81u8, 47));
    assert(chain_ok(166u8, 48));
    assert(chain_ok(83u8, 49));
    assert(chain_ok(167u8, 50));
    assert(chain_ok(221u8, 51));
    assert(chain_ok(224u8, 52));
    assert(chain_ok(112u8, 53));
    assert(chain_ok(56u8, 54));
    assert(chain_ok(28u8, 55));
    assert(chain_ok(14u8, 56));
    assert(chain_ok(7u8, 57));
    assert(chain_ok(141u8, 58));
    assert(chain_ok(200u8, 59));
    assert(chain_ok(100u8, 60));
    assert(chain_ok(50u8, 61));
    assert(chain_ok(25u8, 62));
    assert(chain_ok(130u8, 63));
    assert(chain_ok(65u8, 64));
}


proof fn lemma_cycle_seg2()
    requires
        chain_ok(65u8, 64),
    ensures
        chain_ok(115u8, 96),
{
    assert(
        (if 174u8 & 0x80u8 != 0 { (174u8 << 1) ^ 0x1du8 } else { 174u8 << 1 }) == 65u8 &&
        (if 87u8 & 0x80u8 != 0 { (87u8 << 1) ^ 0x1du8 } else { 87u8 << 1 }) == 174u8 &&
        (if 165u8 & 0x80u8 != 0 { (165u8 << 1) ^ 0x1du8 } else { 165u8 << 1 }) == 87u8 &&
        (if 220u8 & 0x80u8 != 0 { (220u8 << 1) ^ 0x1du8 } else { 220u8 << 1 }) == 165u8 &&
        (if 110u8 & 0x80u8 != 0 { (110u8 << 1) ^ 0x1du8 } else { 110u8 << 1 }) == 220u8 &&
        (if 55u8 & 0x80u8 != 0 { (55u8 << 1) ^ 0x1du8 } else { 55u8 << 1 }) == 110u8 &&
        (if 149u8 & 0x80u8 != 0 { (149u8 << 1) ^ 0x1du8 } else { 149u8 << 1 }) == 55u8 &&
        (if 196u8 & 0x80u8 != 0 { (196u8 << 1) ^ 0x1du8 } else { 196u8 << 1 }) == 149u8 &&
        (if 98u8 & 0x80u8 != 0 { (98u8 << 1) ^ 0x1du8 } else { 98u8 << 1 }) == 196u8 &&
        (if 49u8 & 0x80u8 != 0 { (49u8 << 1) ^ 0x1du8 } else { 49u8 << 1 }) == 98u8 &&
        (if 150u8 & 0x80u8 != 0 { (150u8 << 1) ^ 0x1du8 } else { 150u8 << 1 }) == 49u8 &&
        (if 75u8 & 0x80u8 != 0 { (75u8 << 1) ^ 0x1du8 } else { 75u8 << 1 }) == 150u8 &&
        (if 171u8 & 0x80u8 != 0 { (171u8 << 1) ^ 0x1du8 } else { 171u8 << 1 }) == 75u8 &&
        (if 219u8 & 0x80u8 != 0 { (219u8 << 1) ^ 0x1du8 } else { 219u8 << 1 }) == 171u8 &&
        (if 227u8 & 0x80u8 != 0 { (227u8 << 1) ^ 0x1du8 } else { 227u8 << 1 }) == 219u8 &&
        (if 255u8 & 0x80u8 != 0 { (255u8 << 1) ^ 0x1du8 } else { 255u8 << 1 }) == 227u8 &&
        (if 241u8 & 0x80u8 != 0 { (241u8 << 1) ^ 0x1du8 } else { 241u8 << 1 }) == 255u8 &&
        (if 246u8 & 0x80u8 != 0 { (246u8 << 1) ^ 0x1du8 } else { 246u8 << 1 }) == 241u8 &&
        (if 123u8 & 0x80u8 != 0 { (123u8 << 1) ^ 0x1du8 } else { 123u8 << 1 }) == 246u8 &&
        (if 179u8 & 0x80u8 != 0 { (179u8 << 1) ^ 0x1du8 } else { 179u8 << 1 }) == 123u8 &&
        (if 215u8 & 0x80u8 != 0 { (215u8 << 1) ^ 0x1du8 } else { 215u8 << 1 }) == 179u8 &&
        (if 229u8 & 0x80u8 != 0 { (229u8 << 1) ^ 0x1du8 } else { 229u8 << 1 }) == 215u8 &&
        (if 252u8 & 0x80u8 != 0 { (252u8 << 1) ^ 0x1du8 } else { 252u8 << 1 }) == 229u8 &&
        (if 126u8 & 0x80u8 != 0 { (126u8 << 1) ^ 0x1du8 } else { 126u8 << 1 }) == 252u8 &&
        (if 63u8 & 0x80u8 != 0 { (63u8 << 1) ^ 0x1du8 } else { 63u8 << 1 }) == 126u8 &&
        (if 145u8 & 0x80u8 != 0 { (145u8 << 1) ^ 0x1du8 } else { 145u8 << 1 }) == 63u8 &&
        (if 198u8 & 0x80u8 != 0 { (198u8 << 1) ^ 0x1du8 } else { 198u8 << 1 }) == 145u8 &&
        (if 99u8 & 0x80u8 != 0 { (99u8 << 1) ^ 0x1du8 } else { 99u8 << 1 }) == 198u8 &&
        (if 191u8 & 0x80u8 != 0 { (191u8 << 1) ^ 0x1du8 } else { 191u8 << 1 }) == 99u8 &&
        (if 209u8 & 0x80u8 != 0 { (209u8 << 1) ^ 0x1du8 } else { 209u8 << 1 }) == 191u8 &&
        (if 230u8 & 0x80u8 != 0 { (230u8 << 1) ^ 0x1du8 } else { 230u8 << 1 }) == 209u8 &&
        (if 115u8 & 0x80u8 != 0 { (115u8 << 1) ^ 0x1du8 } else { 115u8 << 1 }) == 230u8
    ) by (bit_vector);

    assert(chain_ok(174u8, 65));
    assert(chain_ok(87u8, 66));
    assert(chain_ok(165u8, 67));
    assert(chain_ok(220u8, 68));
    assert(chain_ok(110u8, 69));
    assert(chain_ok(55u8, 70));
    assert(chain_ok(149u8, 71));
    assert(chain_ok(196u8, 72));
    assert(chain_ok(98u8, 73));
    assert(chain_ok(49u8, 74));
    assert(chain_ok(150u8, 75));
    assert(chain_ok(75u8, 76));
    assert(chain_ok(171u8, 77));
    assert(chain_ok(219u8, 78));
    assert(chain_ok(227u8, 79));
    assert(chain_ok(255u8, 80));
    assert(chain_ok(241u8, 81));
    assert(chain_ok(246u8, 82));
    assert(chain_ok(123u8, 83));
    assert(chain_ok(179u8, 84));
    assert(chain_ok(215u8, 85));
    assert(chain_ok(229u8, 86));
    assert(chain_ok(252u8, 87));
    assert(chain_ok(126u8, 88));
    assert(chain_ok(63u8, 89));
    assert(chain_ok(145u8, 90));
    assert(chain_ok(198u8, 91));
    assert(chain_ok(99u8, 92));
    assert(chain_ok(191u8, 93));
    assert(chain_ok(209u8, 94));
    assert(chain_ok(230u8, 95));
    assert(chain_ok(115u8, 96));
}


proof fn lemma_cycle_seg3()
    requires
        chain_ok(115u8, 96),
    ensures
        chain_ok(204u8, 128),
{
    assert(
        (if 183u8 & 0x80u8 != 0 { (183u8 << 1) ^ 0x1du8 } else { 183u8 << 1 }) == 115u8 &&
        (if 213u8 & 0x80u8 != 0 { (213u8 << 1) ^ 0x1du8 } else { 213u8 << 1 }) == 183u8 &&
        (if 228u8 & 0x80u8 != 0 { (228u8 << 1) ^ 0x1du8 } else { 228u8 << 1 }) == 213u8 &&
        (if 114u8 & 0x80u8 != 0 { (114u8 << 1) ^ 0x1du8 } else { 114u8 << 1 }) == 228u8 &&
        (if 57u8 & 0x80u8 != 0 { (57u8 << 1) ^ 0x1du8 } else { 57u8 << 1 }) == 114u8 &&
        (if 146u8 & 0x80u8 != 0 { (146u8 << 1) ^ 0x1du8 } else { 146u8 << 1 }) == 57u8 &&
        (if 73u8 & 0x80u8 != 0 { (73u8 << 1) ^ 0x1du8 } else { 73u8 << 1 }) == 146u8 &&
        (if 170u8 & 0x80u8 != 0 { (170u8 << 1) ^ 0x1du8 } else { 170u8 << 1 }) == 73u8 &&
        (if 85u8 & 0x80u8 != 0 { (85u8 << 1) ^ 0x1du8 } else { 85u8 << 1 }) == 170u8 &&
        (if 164u8 & 0x80u8 != 0 { (164u8 << 1) ^ 0x1du8 } else { 164u8 << 1 }) == 85u8 &&
        (if 82u8 & 0x80u8 != 0 { (82u8 << 1) ^ 0x1du8 } else { 82u8 << 1 }) == 164u8 &&
        (if 41u8 & 0x80u8 != 0 { (41u8 << 1) ^ 0x1du8 } else { 41u8 << 1 }) == 82u8 &&
        (if 154u8 & 0x80u8 != 0 { (154u8 << 1) ^ 0x1du8 } else { 154u8 << 1 }) == 41u8 &&
        (if 77u8 & 0x80u8 != 0 { (77u8 << 1) ^ 0x1du8 } else { 77u8 << 1 }) == 154u8 &&
        (if 168u8 & 0x80u8 != 0 { (168u8 << 1) ^ 0x1du8 } else { 168u8 << 1 }) == 77u8 &&
        (if 84u8 & 0x80u8 != 0 { (84u8 << 1) ^ 0x1du8 } else { 84u8 << 1 }) == 168u8 &&
        (if 42u8 & 0x80u8 != 0 { (42u8 << 1) ^ 0x1du8 } else { 42u8 << 1 }) == 84u8 &&
        (if 21u8 & 0x80u8 != 0 { (21u8 << 1) ^ 0x1du8 } else { 21u8 << 1 }) == 42u8 &&
        (if 132u8 & 0x80u8 != 0 { (132u8 << 1) ^ 0x1du8 } else { 132u8 << 1 }) == 21u8 &&
        (if 66u8 & 0x80u8 != 0 { (66u8 << 1) ^ 0x1du8 } else { 66u8 << 1 }) == 132u8 &&
        (if 33u8 & 0x80u8 != 0 { (33u8 << 1) ^ 0x1du8 } else { 33u8 << 1 }) == 66u8 &&
        (if 158u8 & 0x80u8 != 0 { (158u8 << 1) ^ 0x1du8 } else { 158u8 << 1 }) == 33u8 &&
        (if 79u8 & 0x80u8 != 0 { (79u8 << 1) ^ 0x1du8 } else { 79u8 << 1 }) == 158u8 &&
        (if 169u8 & 0x80u8 != 0 { (169u8 << 1) ^ 0x1du8 } else { 169u8 << 1 }) == 79u8 &&
        (if 218u8 & 0x80u8 != 0 { (218u8 << 1) ^ 0x1du8 } else { 218u8 << 1 }) == 169u8 &&
        (if 109u8 & 0x80u8 != 0 { (109u8 << 1) ^ 0x1du8 } else { 109u8 << 1 }) == 218u8 &&
        (if 184u8 & 0x80u8 != 0 { (184u8 << 1) ^ 0x1du8 } else { 184u8 << 1 }) == 109u8 &&
        (if 92u8 & 0x80u8 != 0 { (92u8 << 1) ^ 0x1du8 } else { 92u8 << 1 }) == 184u8 &&
        (if 46u8 & 0x80u8 != 0 { (46u8 << 1) ^ 0x1du8 } else { 46u8 << 1 }) == 92u8 &&
        (if 23u8 & 0x80u8 != 0 { (23u8 << 1) ^ 0x1du8 } else { 23u8 << 1 }) == 46u8 &&
        (if 133u8 & 0x80u8 != 0 { (133u8 << 1) ^ 0x1du8 } else { 133u8 << 1 }) == 23u8 &&
        (if 204u8 & 0x80u8 != 0 { (204u8 << 1) ^ 0x1du8 } else { 204u8 << 1 }) == 133u8
    ) by (bit_vector);

    assert(chain_ok(183u8, 97));
    assert(chain_ok(213u8, 98));
    assert(chain_ok(228u8, 99));
    assert(chain_ok(114u8, 100));
    assert(chain_ok(57u8, 101));
    assert(chain_ok(146u8, 102));
    assert(chain_ok(73u8, 103));
    assert(chain_ok(170u8, 104));
    assert(chain_ok(85u8, 105));
    assert(chain_ok(164u8, 106));
    assert(chain_ok(82u8, 107));
    assert(chain_ok(41u8, 108));
    assert(chain_ok(154u8, 109));
    assert(chain_ok(77u8, 110));
    assert(chain_ok(168u8, 111));
    assert(chain_ok(84u8, 112));
    assert(chain_ok(42u8, 113));
    assert(chain_ok(21u8, 114));
    assert(chain_ok(132u8, 115));
    assert(chain_ok(66u8, 116));
    assert(chain_ok(33u8, 117));
    assert(chain_ok(158u8, 118));
    assert(chain_ok(79u8, 119));
    assert(chain_ok(169u8, 120));
    assert(chain_ok(218u8, 121));
    assert(chain_ok(109u8, 122));
    assert(chain_ok(184u8, 123));
    assert(chain_ok(92u8, 124));
    assert(chain_ok(46u8, 125));
    assert(chain_ok(23u8, 126));
    assert(chain_ok(133u8, 127));
    assert(chain_ok(204u8, 128));
}


proof fn lemma_cycle_seg4()
    requires
        chain_ok(204u8, 128),
    ensures
        chain_ok(226u8, 160),
{
    assert(
        (if 102u8 & 0x80u8 != 0 { (102u8 << 1) ^ 0x1du8 } else { 102u8 << 1 }) == 204u8 &&
        (if 51u8 & 0x80u8 != 0 { (51u8 << 1) ^ 0x1du8 } else { 51u8 << 1 }) == 102u8 &&
        (if 151u8 & 0x80u8 != 0 { (151u8 << 1) ^ 0x1du8 } else { 151u8 << 1 }) == 51u8 &&
        (if 197u8 & 0x80u8 != 0 { (197u8 << 1) ^ 0x1du8 } else { 197u8 << 1 }) == 151u8 &&
        (if 236u8 & 0x80u8 != 0 { (236u8 << 1) ^ 0x1du8 } else { 236u8 << 1 }) == 197u8 &&
        (if 118u8 & 0x80u8 != 0 { (118u8 << 1) ^ 0x1du8 } else { 118u8 << 1 }) == 236u8 &&
        (if 59u8 & 0x80u8 != 0 { (59u8 << 1) ^ 0x1du8 } else { 59u8 << 1 }) == 118u8 &&
        (if 147u8 & 0x80u8 != 0 { (147u8 << 1) ^ 0x1du8 } else { 147u8 << 1 }) == 59u8 &&
        (if 199u8 & 0x80u8 != 0 { (199u8 << 1) ^ 0x1du8 } else { 199u8 << 1 }) == 147u8 &&
        (if 237u8 & 0x80u8 != 0 { (237u8 << 1) ^ 0x1du8 } else { 237u8 << 1 }) == 199u8 &&
        (if 248u8 & 0x80u8 != 0 { (248u8 << 1) ^ 0x1du8 } else { 248u8 << 1 }) == 237u8 &&
        (if 124u8 & 0x80u8 != 0 { (124u8 << 1) ^ 0x1du8 } else { 124u8 << 1 }) == 248u8 &&
        (if 62u8 & 0x80u8 != 0 { (62u8 << 1) ^ 0x1du8 } else { 62u8 << 1 }) == 124u8 &&
        (if 31u8 & 0x80u8 != 0 { (31u8 << 1) ^ 0x1du8 } else { 31u8 << 1 }) == 62u8 &&
        (if 129u8 & 0x80u8 != 0 { (129u8 << 1) ^ 0x1du8 } else { 129u8 << 1 }) == 31u8 &&
        (if 206u8 & 0x80u8 != 0 { (206u8 << 1) ^ 0x1du8 } else { 206u8 << 1 }) == 129u8 &&
        (if 103u8 & 0x80u8 != 0 { (103u8 << 1) ^ 0x1du8 } else { 103u8 << 1 }) == 206u8 &&
        (if 189u8 & 0x80u8 != 0 { (189u8 << 1) ^ 0x1du8 } else { 189u8 << 1 }) == 103u8 &&
        (if 208u8 & 0x80u8 != 0 { (208u8 << 1) ^ 0x1du8 } else { 208u8 << 1 }) == 189u8 &&
        (if 104u8 & 0x80u8 != 0 { (104u8 << 1) ^ 0x1du8 } else { 104u8 << 1 }) == 208u8 &&
        (if 52u8 & 0x80u8 != 0 { (52u8 << 1) ^ 0x1du8 } else { 52u8 << 1 }) == 104u8 &&
        (if 26u8 & 0x80u8 != 0 { (26u8 << 1) ^ 0x1du8 } else { 26u8 << 1 }) == 52u8 &&
        (if 13u8 & 0x80u8 != 0 { (13u8 << 1) ^ 0x1du8 } else { 13u8 << 1 }) == 26u8 &&
        (if 136u8 & 0x80u8 != 0 { (136u8 << 1) ^ 0x1du8 } else { 136u8 << 1 }) == 13u8 &&
        (if 68u8 & 0x80u8 != 0 { (68u8 << 1) ^ 0x1du8 } else { 68u8 << 1 }) == 136u8 &&
        (if 34u8 & 0x80u8 != 0 { (34u8 << 1) ^ 0x1du8 } else { 34u8 << 1 }) == 68u8 &&
        (if 17u8 & 0x80u8 != 0 { (17u8 << 1) ^ 0x1du8 } else { 17u8 << 1 }) == 34u8 &&
        (if 134u8 & 0x80u8 != 0 { (134u8 << 1) ^ 0x1du8 } else { 134u8 << 1 }) == 17u8 &&
        (if 67u8 & 0x80u8 != 0 { (67u8 << 1) ^ 0x1du8 } else { 67u8 << 1 }) == 134u8 &&
        (if 175u8 & 0x80u8 != 0 { (175u8 << 1) ^ 0x1du8 } else { 175u8 << 1 }) == 67u8 &&
        (if 217u8 & 0x80u8 != 0 { (217u8 << 1) ^ 0x1du8 } else { 217u8 << 1 }) == 175u8 &&
        (if 226u8 & 0x80u8 != 0 { (226u8 << 1) ^ 0x1du8 } else { 226u8 << 1 }) == 217u8
    ) by (bit_vector);

    assert(chain_ok(102u8, 129));
    assert(chain_ok(51u8, 130));
    assert(chain_ok(151u8, 131));
    assert(chain_ok(197u8, 132));
    assert(chain_ok(236u8, 133));
    assert(chain_ok(118u8, 134));
    assert(chain_ok(59u8, 135));
    assert(chain_ok(147u8, 136));
    assert(chain_ok(199u8, 137));
    assert(chain_ok(237u8, 138));
    assert(chain_ok(248u8, 139));
    assert(chain_ok(124u8, 140));
    assert(chain_ok(62u8, 141));
    assert(chain_ok(31u8, 142));
    assert(chain_ok(129u8, 143));
    assert(chain_ok(206u8, 144));
    assert(chain_ok(103u8, 145));
    assert(chain_ok(189u8, 146));
    assert(chain_ok(208u8, 147));
    assert(chain_ok(104u8, 148));
    assert(chain_ok(52u8, 149));
    assert(chain_ok(26u8, 150));
    assert(chain_ok(13u8, 151));
    assert(chain_ok(136u8, 152));
    assert(chain_ok(68u8, 153));
    assert(chain_ok(34u8, 154));
    assert(chain_ok(17u8, 155));
    assert(chain_ok(134u8, 156));
    assert(chain_ok(67u8, 157));
    assert(chain_ok(175u8, 158));
    assert(chain_ok(217u8, 159));
    assert(chain_ok(226u8, 160));
}


proof fn lemma_cycle_seg5()
    requires
        chain_ok(226u8, 160),
    ensures
        chain_ok(161u8, 192),
{
    assert(
        (if 113u8 & 0x80u8 != 0 { (113u8 << 1) ^ 0x1du8 } else { 113u8 << 1 }) == 226u8 &&
        (if 182u8 & 0x80u8 != 0 { (182u8 << 1) ^ 0x1du8 } else { 182u8 << 1 }) == 113u8 &&
        (if 91u8 & 0x80u8 != 0 { (91u8 << 1) ^ 0x1du8 } else { 91u8 << 1 }) == 182u8 &&
        (if 163u8 & 0x80u8 != 0 { (163u8 << 1) ^ 0x1du8 } else { 163u8 << 1 }) == 91u8 &&
        (if 223u8 & 0x80u8 != 0 { (223u8 << 1) ^ 0x1du8 } else { 223u8 << 1 }) == 163u8 &&
        (if 225u8 & 0x80u8 != 0 { (225u8 << 1) ^ 0x1du8 } else { 225u8 << 1 }) == 223u8 &&
        (if 254u8 & 0x80u8 != 0 { (254u8 << 1) ^ 0x1du8 } else { 254u8 << 1 }) == 225u8 &&
        (if 127u8 & 0x80u8 != 0 { (127u8 << 1) ^ 0x1du8 } else { 127u8 << 1 }) == 254u8 &&
        (if 177u8 & 0x80u8 != 0 { (177u8 << 1) ^ 0x1du8 } else { 177u8 << 1 }) == 127u8 &&
        (if 214u8 & 0x80u8 != 0 { (214u8 << 1) ^ 0x1du8 } else { 214u8 << 1 }) == 177u8 &&
        (if 107u8 & 0x80u8 != 0 { (107u8 << 1) ^ 0x1du8 } else { 107u8 << 1 }) == 214u8 &&
        (if 187u8 & 0x80u8 != 0 { (187u8 << 1) ^ 0x1du8 } else { 187u8 << 1 }) == 107u8 &&
        (if 211u8 & 0x80u8 != 0 { (211u8 << 1) ^ 0x1du8 } else { 211u8 << 1 }) == 187u8 &&
        (if 231u8 & 0x80u8 != 0 { (231u8 << 1) ^ 0x1du8 } else { 231u8 << 1 }) == 211u8 &&
        (if 253u8 & 0x80u8 != 0 { (253u8 << 1) ^ 0x1du8 } else { 253u8 << 1 }) == 231u8 &&
        (if 240u8 & 0x80u8 != 0 { (240u8 << 1) ^ 0x1du8 } else { 240u8 << 1 }) == 253u8 &&
        (if 120u8 & 0x80u8 != 0 { (120u8 << 1) ^ 0x1du8 } else { 120u8 << 1 }) == 240u8 &&
        (if 60u8 & 0x80u8 != 0 { (60u8 << 1) ^ 0x1du8 } else { 60u8 << 1 }) == 120u8 &&
        (if 30u8 & 0x80u8 != 0 { (30u8 << 1) ^ 0x1du8 } else { 30u8 << 1 }) == 60u8 &&
        (if 15u8 & 0x80u8 != 0 { (15u8 << 1) ^ 0x1du8 } else { 15u8 << 1 }) == 30u8 &&
        (if 137u8 & 0x80u8 != 0 { (137u8 << 1) ^ 0x1du8 } else { 137u8 << 1 }) == 15u8 &&
        (if 202u8 & 0x80u8 != 0 { (202u8 << 1) ^ 0x1du8 } else { 202u8 << 1 }) == 137u8 &&
        (if 101u8 & 0x80u8 != 0 { (101u8 << 1) ^ 0x1du8 } else { 101u8 << 1 }) == 202u8 &&
        (if 188u8 & 0x80u8 != 0 { (188u8 << 1) ^ 0x1du8 } else { 188u8 << 1 }) == 101u8 &&
        (if 94u8 & 0x80u8 != 0 { (94u8 << 1) ^ 0x1du8 } else { 94u8 << 1 }) == 188u8 &&
        (if 47u8 & 0x80u8 != 0 { (47u8 << 1) ^ 0x1du8 } else { 47u8 << 1 }) == 94u8 &&
        (if 153u8 & 0x80u8 != 0 { (153u8 << 1) ^ 0x1du8 } else { 153u8 << 1 }) == 47u8 &&
        (if 194u8 & 0x80u8 != 0 { (194u8 << 1) ^ 0x1du8 } else { 194u8 << 1 }) == 153u8 &&
        (if 97u8 & 0x80u8 != 0 { (97u8 << 1) ^ 0x1du8 } else { 97u8 << 1 }) == 194u8 &&
        (if 190u8 & 0x80u8 != 0 { (190u8 << 1) ^ 0x1du8 } else { 190u8 << 1 }) == 97u8 &&
        (if 95u8 & 0x80u8 != 0 { (95u8 << 1) ^ 0x1du8 } else { 95u8 << 1 }) == 190u8 &&
        (if 161u8 & 0x80u8 != 0 { (161u8 << 1) ^ 0x1du8 } else { 161u8 << 1 }) == 95u8
    ) by (bit_vector);

    assert(chain_ok(113u8, 161));
    assert(chain_ok(182u8, 162));
    assert(chain_ok(91u8, 163));
    assert(chain_ok(163u8, 164));
    assert(chain_ok(223u8, 165));
    assert(chain_ok(225u8, 166));
    assert(chain_ok(254u8, 167));
    assert(chain_ok(127u8, 168));
    assert(chain_ok(177u8, 169));
    assert(chain_ok(214u8, 170));
    assert(chain_ok(107u8, 171));
    assert(chain_ok(187u8, 172));
    assert(chain_ok(211u8, 173));
    assert(chain_ok(231u8, 174));
    assert(chain_ok(253u8, 175));
    assert(chain_ok(240u8, 176));
    assert(chain_ok(120u8, 177));
    assert(chain_ok(60u8, 178));
    assert(chain_ok(30u8, 179));
    assert(chain_ok(15u8, 180));
    assert(chain_ok(137u8, 181));
    assert(chain_ok(202u8, 182));
    assert(chain_ok(101u8, 183));
    assert(chain_ok(188u8, 184));
    assert(chain_ok(94u8, 185));
    assert(chain_ok(47u8, 186));
    assert(chain_ok(153u8, 187));
    assert(chain_ok(194u8, 188));
    assert(chain_ok(97u8, 189));
    assert(chain_ok(190u8, 190));
    assert(chain_ok(95u8, 191));
    assert(chain_ok(161u8, 192));
}


proof fn lemma_cycle_seg6()
    requires
        chain_ok(161u8, 192),
    ensures
        chain_ok(192u8, 224),
{
    assert(
        (if 222u8 & 0x80u8 != 0 { (222u8 << 1) ^ 0x1du8 } else { 222u8 << 1 }) == 161u8 &&
        (if 111u8 & 0x80u8 != 0 { (111u8 << 1) ^ 0x1du8 } else { 111u8 << 1 }) == 222u8 &&
        (if 185u8 & 0x80u8 != 0 { (185u8 << 1) ^ 0x1du8 } else { 185u8 << 1 }) == 111u8 &&
        (if 210u8 & 0x80u8 != 0 { (210u8 << 1) ^ 0x1du8 } else { 210u8 << 1 }) == 185u8 &&
        (if 105u8 & 0x80u8 != 0 { (105u8 << 1) ^ 0x1du8 } else { 105u8 << 1 }) == 210u8 &&
        (if 186u8 & 0x80u8 != 0 { (186u8 << 1) ^ 0x1du8 } else { 186u8 << 1 }) == 105u8 &&
        (if 93u8 & 0x80u8 != 0 { (93u8 << 1) ^ 0x1du8 } else { 93u8 << 1 }) == 186u8 &&
        (if 160u8 & 0x80u8 != 0 { (160u8 << 1) ^ 0x1du8 } else { 160u8 << 1 }) == 93u8 &&
        (if 80u8 & 0x80u8 != 0 { (80u8 << 1) ^ 0x1du8 } else { 80u8 << 1 }) == 160u8 &&
        (if 40u8 & 0x80u8 != 0 { (40u8 << 1) ^ 0x1du8 } else { 40u8 << 1 }) == 80u8 &&
        (if 20u8 & 0x80u8 != 0 { (20u8 << 1) ^ 0x1du8 } else { 20u8 << 1 }) == 40u8 &&
        (if 10u8 & 0x80u8 != 0 { (10u8 << 1) ^ 0x1du8 } else { 10u8 << 1 }) == 20u8 &&
        (if 5u8 & 0x80u8 != 0 { (5u8 << 1) ^ 0x1du8 } else { 5u8 << 1 }) == 10u8 &&
        (if 140u8 & 0x80u8 != 0 { (140u8 << 1) ^ 0x1du8 } else { 140u8 << 1 }) == 5u8 &&
        (if 70u8 & 0x80u8 != 0 { (70u8 << 1) ^ 0x1du8 } else { 70u8 << 1 }) == 140u8 &&
        (if 35u8 & 0x80u8 != 0 { (35u8 << 1) ^ 0x1du8 } else { 35u8 << 1 }) == 70u8 &&
        (if 159u8 & 0x80u8 != 0 { (159u8 << 1) ^ 0x1du8 } else { 159u8 << 1 }) == 35u8 &&
        (if 193u8 & 0x80u8 != 0 { (193u8 << 1) ^ 0x1du8 } else { 193u8 << 1 }) == 159u8 &&
        (if 238u8 & 0x80u8 != 0 { (238u8 << 1) ^ 0x1du8 } else { 238u8 << 1 }) == 193u8 &&
        (if 119u8 & 0x80u8 != 0 { (119u8 << 1) ^ 0x1du8 } else { 119u8 << 1 }) == 238u8 &&
        (if 181u8 & 0x80u8 != 0 { (181u8 << 1) ^ 0x1du8 } else { 181u8 << 1 }) == 119u8 &&
        (if 212u8 & 0x80u8 != 0 { (212u8 << 1) ^ 0x1du8 } else { 212u8 << 1 }) == 181u8 &&
        (if 106u8 & 0x80u8 != 0 { (106u8 << 1) ^ 0x1du8 } else { 106u8 << 1 }) == 212u8 &&
        (if 53u8 & 0x80u8 != 0 { (53u8 << 1) ^ 0x1du8 } else { 53u8 << 1 }) == 106u8 &&
        (if 148u8 & 0x80u8 != 0 { (148u8 << 1) ^ 0x1du8 } else { 148u8 << 1 }) == 53u8 &&
        (if 74u8 & 0x80u8 != 0 { (74u8 << 1) ^ 0x1du8 } else { 74u8 << 1 }) == 148u8 &&
        (if 37u8 & 0x80u8 != 0 { (37u8 << 1) ^ 0x1du8 } else { 37u8 << 1 }) == 74u8 &&
        (if 156u8 & 0x80u8 != 0 { (156u8 << 1) ^ 0x1du8 } else { 156u8 << 1 }) == 37u8 &&
        (if 78u8 & 0x80u8 != 0 { (78u8 << 1) ^ 0x1du8 } else { 78u8 << 1 }) == 156u8 &&
        (if 39u8 & 0x80u8 != 0 { (39u8 << 1) ^ 0x1du8 } else { 39u8 << 1 }) == 78u8 &&
        (if 157u8 & 0x80u8 != 0 { (157u8 << 1) ^ 0x1du8 } else { 157u8 << 1 }) == 39u8 &&
        (if 192u8 & 0x80u8 != 0 { (192u8 << 1) ^ 0x1du8 } else { 192u8 << 1 }) == 157u8
    ) by (bit_vector);

    assert(chain_ok(222u8, 193));
    assert(chain_ok(111u8, 194));
    assert(chain_ok(185u8, 195));
    assert(chain_ok(210u8, 196));
    assert(chain_ok(105u8, 197));
    assert(chain_ok(186u8, 198));
    assert(chain_ok(93u8, 199));
    assert(chain_ok(160u8, 200));
    assert(chain_ok(80u8, 201));
    assert(chain_ok(40u8, 202));
    assert(chain_ok(20u8, 203));
    assert(chain_ok(10u8, 204));
    assert(chain_ok(5u8, 205));
    assert(chain_ok(140u8, 206));
    assert(chain_ok(70u8, 207));
    assert(chain_ok(35u8, 208));
    assert(chain_ok(159u8, 209));
    assert(chain_ok(193u8, 210));
    assert(chain_ok(238u8, 211));
    assert(chain_ok(119u8, 212));
    assert(chain_ok(181u8, 213));
    assert(chain_ok(212u8, 214));
    assert(chain_ok(106u8, 215));
    assert(chain_ok(53u8, 216));
    assert(chain_ok(148u8, 217));
    assert(chain_ok(74u8, 218));
    assert(chain_ok(37u8, 219));
    assert(chain_ok(156u8, 220));
    assert(chain_ok(78u8, 221));
    assert(chain_ok(39u8, 222));
    assert(chain_ok(157u8, 223));
    assert(chain_ok(192u8, 224));
}


proof fn lemma_cycle_seg7()
    requires
        chain_ok(192u8, 224),
    ensures
        chain_ok(2u8, 254),
{
    assert(
        (if 96u8 & 0x80u8 != 0 { (96u8 << 1) ^ 0x1du8 } else { 96u8 << 1 }) == 192u8 &&
        (if 48u8 & 0x80u8 != 0 { (48u8 << 1) ^ 0x1du8 } else { 48u8 << 1 }) == 96u8 &&
        (if 24u8 & 0x80u8 != 0 { (24u8 << 1) ^ 0x1du8 } else { 24u8 << 1 }) == 48u8 &&
        (if 12u8 & 0x80u8 != 0 { (12u8 << 1) ^ 0x1du8 } else { 12u8 << 1 }) == 24u8 &&
        (if 6u8 & 0x80u8 != 0 { (6u8 << 1) ^ 0x1du8 } else { 6u8 << 1 }) == 12u8 &&
        (if 3u8 & 0x80u8 != 0 { (3u8 << 1) ^ 0x1du8 } else { 3u8 << 1 }) == 6u8 &&
        (if 143u8 & 0x80u8 != 0 { (143u8 << 1) ^ 0x1du8 } else { 143u8 << 1 }) == 3u8 &&
        (if 201u8 & 0x80u8 != 0 { (201u8 << 1) ^ 0x1du8 } else { 201u8 << 1 }) == 143u8 &&
        (if 234u8 & 0x80u8 != 0 { (234u8 << 1) ^ 0x1du8 } else { 234u8 << 1 }) == 201u8 &&
        (if 117u8 & 0x80u8 != 0 { (117u8 << 1) ^ 0x1du8 } else { 117u8 << 1 }) == 234u8 &&
        (if 180u8 & 0x80u8 != 0 { (180u8 << 1) ^ 0x1du8 } else { 180u8 << 1 }) == 117u8 &&
        (if 90u8 & 0x80u8 != 0 { (90u8 << 1) ^ 0x1du8 } else { 90u8 << 1 }) == 180u8 &&
        (if 45u8 & 0x80u8 != 0 { (45u8 << 1) ^ 0x1du8 } else { 45u8 << 1 }) == 90u8 &&
        (if 152u8 & 0x80u8 != 0 { (152u8 << 1) ^ 0x1du8 } else { 152u8 << 1 }) == 45u8 &&
        (if 76u8 & 0x80u8 != 0 { (76u8 << 1) ^ 0x1du8 } else { 76u8 << 1 }) == 152u8 &&
        (if 38u8 & 0x80u8 != 0 { (38u8 << 1) ^ 0x1du8 } else { 38u8 << 1 }) == 76u8 &&
        (if 19u8 & 0x80u8 != 0 { (19u8 << 1) ^ 0x1du8 } else { 19u8 << 1 }) == 38u8 &&
        (if 135u8 & 0x80u8 != 0 { (135u8 << 1) ^ 0x1du8 } else { 135u8 << 1 }) == 19u8 &&
        (if 205u8 & 0x80u8 != 0 { (205u8 << 1) ^ 0x1du8 } else { 205u8 << 1 }) == 135u8 &&
        (if 232u8 & 0x80u8 != 0 { (232u8 << 1) ^ 0x1du8 } else { 232u8 << 1 }) == 205u8 &&
        (if 116u8 & 0x80u8 != 0 { (116u8 << 1) ^ 0x1du8 } else { 116u8 << 1 }) == 232u8 &&
        (if 58u8 & 0x80u8 != 0 { (58u8 << 1) ^ 0x1du8 } else { 58u8 << 1 }) == 116u8 &&
        (if 29u8 & 0x80u8 != 0 { (29u8 << 1) ^ 0x1du8 } else { 29u8 << 1 }) == 58u8 &&
        (if 128u8 & 0x80u8 != 0 { (128u8 << 1) ^ 0x1du8 } else { 128u8 << 1 }) == 29u8 &&
        (if 64u8 & 0x80u8 != 0 { (64u8 << 1) ^ 0x1du8 } else { 64u8 << 1 }) == 128u8 &&
        (if 32u8 & 0x80u8 != 0 { (32u8 << 1) ^ 0x1du8 } else { 32u8 << 1 }) == 64u8 &&
        (if 16u8 & 0x80u8 != 0 { (16u8 << 1) ^ 0x1du8 } else { 16u8 << 1 }) == 32u8 &&
        (if 8u8 & 0x80u8 != 0 { (8u8 << 1) ^ 0x1du8 } else { 8u8 << 1 }) == 16u8 &&
        (if 4u8 & 0x80u8 != 0 { (4u8 << 1) ^ 0x1du8 } else { 4u8 << 1 }) == 8u8 &&
        (if 2u8 & 0x80u8 != 0 { (2u8 << 1) ^ 0x1du8 } else { 2u8 << 1 }) == 4u8
    ) by (bit_vector);

    assert(chain_ok(96u8, 225));
    assert(chain_ok(48u8, 226));
    assert(chain_ok(24u8, 227));
    assert(chain_ok(12u8, 228));
    assert(chain_ok(6u8, 229));
    assert(chain_ok(3u8, 230));
    assert(chain_ok(143u8, 231));
    assert(chain_ok(201u8, 232));
    assert(chain_ok(234u8, 233));
    assert(chain_ok(117u8, 234));
    assert(chain_ok(180u8, 235));
    assert(chain_ok(90u8, 236));
    assert(chain_ok(45u8, 237));
    assert(chain_ok(152u8, 238));
    assert(chain_ok(76u8, 239));
    assert(chain_ok(38u8, 240));
    assert(chain_ok(19u8, 241));
    assert(chain_ok(135u8, 242));
    assert(chain_ok(205u8, 243));
    assert(chain_ok(232u8, 244));
    assert(chain_ok(116u8, 245));
    assert(chain_ok(58u8, 246));
    assert(chain_ok(29u8, 247));
    assert(chain_ok(128u8, 248));
    assert(chain_ok(64u8, 249));
    assert(chain_ok(32u8, 250));
    assert(chain_ok(16u8, 251));
    assert(chain_ok(8u8, 252));
    assert(chain_ok(4u8, 253));
    assert(chain_ok(2u8, 254));
}

/// The concrete walk of the generator: starting at alpha^1 = 2, the next 253
/// values stay away from 1, and the 255th step returns to 1.  The ground
/// equations for every step are discharged as bit-vector facts, one segment
/// of the walk at a time.
proof fn lemma_alpha_cycle()
    ensures
        chain_ok(pow255(1), 254),
{
    lemma_cycle_seg0();
    lemma_cycle_seg1();
    lemma_cycle_seg2();
    lemma_cycle_seg3();
    lemma_cycle_seg4();
    lemma_cycle_seg5();
    lemma_cycle_seg6();
    lemma_cycle_seg7();
    assert((if 1u8 & 0x80u8 != 0 {
        (1u8 << 1) ^ 0x1du8
    } else {
        1u8 << 1
    }) == 2u8) by (bit_vector);
    assert(pow255(0) == 1u8);
    assert(pow255(1) == gf_step(1u8));
}

/// The multiplicative order of alpha is exactly 255: the powers return to 1
/// for the first time at exponent 255.
proof fn lemma_pow_cycle()
    ensures
        forall|d: nat| 0 < d < 255 ==> pow255(d) != 1,
        pow255(255) == 1,
{
    lemma_alpha_cycle();
    lemma_chain(1, 254);
}

/// The multiplicative order of alpha is exactly 255: no earlier power
/// returns to 1.
proof fn lemma_pow_not_one(d: nat)
    requires
        0 < d < 255,
    ensures
        pow255(d) != 1,
{
    lemma_pow_cycle();
}

/// Distinct exponents below 255 give distinct powers of alpha.
pub proof fn lemma_pow_distinct(i: nat, j: nat)
    requires
        i < j < 255,
    ensures
        pow255(i) != pow255(j),
    decreases i,
{
    if pow255(i) == pow255(j) {
        if i == 0 {
            lemma_pow_not_one(j);
        } else {
            assert(gf_step(pow255((i - 1) as nat)) == gf_step(pow255((j - 1) as nat)));
            lemma_step_injective(pow255((i - 1) as nat), pow255((j - 1) as nat));
            lemma_pow_distinct((i - 1) as nat, (j - 1) as nat);
        }
    }
}

/// The powers of alpha repeat with period 255.
pub proof fn lemma_pow_period(i: nat)
    ensures
        pow255((i + 255) as nat) == pow255(i),
    decreases i,
{
    if i == 0 {
        lemma_pow_cycle();
    } else {
        lemma_pow_period((i - 1) as nat);
        assert(pow255((i + 255) as nat) == gf_step(pow255((i + 254) as nat)));
        assert((i - 1 + 255) as nat == (i + 254) as nat);
    }
}

/// The set of the first k powers of alpha.
spec fn pow_set(k: nat) -> Set<u8>
    decreases k,
{
    if k == 0 {
        Set::empty()
    } else {
        pow_set((k - 1) as nat).insert(pow255((k - 1) as nat))
    }
}

proof fn lemma_pow_set(k: nat)
    requires
        k <= 255,
    ensures
        pow_set(k).finite(),
        pow_set(k).len() == k,
        forall|a: u8| pow_set(k).contains(a) <==> exists|i: nat| i < k && pow255(i) == a,
    decreases k,
{
    if k != 0 {
        lemma_pow_set((k - 1) as nat);
        let prev = pow_set((k - 1) as nat);
        let e = pow255((k - 1) as nat);
        if prev.contains(e) {
            let i = choose|i: nat| i < k - 1 && pow255(i) == e;
            lemma_pow_distinct(i, (k - 1) as nat);
        }
        vstd::set::axiom_set_insert_len(prev, e);
        assert forall|a: u8| pow_set(k).contains(a) implies exists|i: nat|
            i < k && pow255(i) == a by {
            if a == e {
                assert(((k - 1) as nat) < k && pow255((k - 1) as nat) == a);
            }
        }
        assert forall|a: u8| (exists|i: nat| i < k && pow255(i) == a) implies pow_set(
            k,
        ).contains(a) by {
            let i = choose|i: nat| i < k && pow255(i) == a;
            if i < k - 1 {
                assert(prev.contains(a));
            }
        }
    }
}

/// The set of the nonzero byte values up to v.
spec fn below_set(v: nat) -> Set<u8>
    decreases v,
{
    if v == 0 {
        Set::empty()
    } else {
        below_set((v - 1) as nat).insert(v as u8)
    }
}

proof fn lemma_below_set(v: nat)
    requires
        v <= 255,
    ensures
        below_set(v).finite(),
        below_set(v).len() == v,
        forall|a: u8| below_set(v).contains(a) <==> 1 <= a as nat <= v,
    decreases v,
{
    if v != 0 {
        lemma_below_set((v - 1) as nat);
        vstd::set::axiom_set_insert_len(below_set((v - 1) as nat), v as u8);
    }
}

/// A finite set can hold no proper subset of the same size.
proof fn lemma_subset_full(s: Set<u8>, t: Set<u8>)
    requires
        t.finite(),
        s.subset_of(t),
        s.len() == t.len(),
    ensures
        forall|a: u8| t.contains(a) ==> s.contains(a),
{
    assert forall|a: u8| t.contains(a) implies s.contains(a) by {
        if !s.contains(a) {
            assert(s.subset_of(t.remove(a)));
            vstd::set::axiom_set_remove_len(t, a);
            vstd::set::axiom_set_remove_finite(t, a);
            vstd::set_lib::lemma_len_subset(s, t.remove(a));
        }
    }
}

/// Every nonzero byte is a power of alpha: the 255 distinct powers must
/// cover the 255 nonzero byte values.
proof fn lemma_pow_onto(a: u8)
    requires
        a != 0,
    ensures
        exists|i: nat| i < 255 && pow255(i) == a,
{
    lemma_pow_set(255);
    lemma_below_set(255);
    assert forall|b: u8| pow_set(255).contains(b) implies below_set(255).contains(b) by {
        let i = choose|i: nat| i < 255 && pow255(i) == b;
        lemma_pow_nonzero(i);
    }
    lemma_subset_full(pow_set(255), below_set(255));
    assert(below_set(255).contains(a));
}

/// Every nonzero byte has a discrete logarithm below 255, and the
/// exponential of that logarithm gives the byte back.
pub proof fn lemma_dlog(a: u8)
    requires
        a != 0,
    ensures
        dlog(a) < 255,
        pow255(dlog(a)) == a,
{
    lemma_pow_onto(a);
}

/// The discrete logarithm inverts exponentiation.
pub proof fn lemma_dlog_pow(i: nat)
    requires
        i < 255,
    ensures
        dlog(pow255(i)) == i,
{
    lemma_pow_nonzero(i);
    lemma_dlog(pow255(i));
    let d = dlog(pow255(i));
    if d < i {
        lemma_pow_distinct(d, i);
    } else if d > i {
        lemma_pow_distinct(i, d);
    }
}

proof fn lemma_dlog_one()
    ensures
        dlog(1u8) == 0,
{
    assert(pow255(0) == 1u8);
    lemma_dlog_pow(0);
}

/// Multiplying by zero gives zero.
pub proof fn lemma_mul_zero(a: u8)
    ensures
        gmul(a, 0) == 0,
        gmul(0, a) == 0,
{
}

/// One is the multiplicative identity.
pub proof fn lemma_mul_one(a: u8)
    ensures
        gmul(a, 1) == a,
        gmul(1, a) == a,
{
    if a != 0 {
        lemma_dlog_one();
        lemma_dlog(a);
    }
}

/// Field multiplication is commutative.
pub proof fn lemma_mul_comm(a: u8, b: u8)
    ensures
        gmul(a, b) == gmul(b, a),
{
}

/// Every nonzero element times its inverse gives one.
pub proof fn lemma_mul_inv(a: u8)
    requires
        a != 0,
    ensures
        gmul(a, ginv(a)) == 1,
{
    lemma_dlog(a);
    let la = dlog(a);
    lemma_pow_cycle();
    if la == 0 {
        assert(a == 1);
        assert(ginv(a) == pow255(255));
        lemma_dlog_one();
    } else {
        lemma_pow_nonzero((255 - la) as nat);
        lemma_dlog_pow((255 - la) as nat);
        assert(gmul(a, ginv(a)) == pow255(255));
    }
}

/// Dividing a product by one of its factors gives the other factor back.
pub proof fn lemma_div_mul(a: u8, b: u8)
    requires
        b != 0,
    ensures
        gdiv(gmul(a, b), b) == a,
{
    if a != 0 {
        lemma_dlog(a);
        lemma_dlog(b);
        let la = dlog(a);
        let lb = dlog(b);
        lemma_pow_nonzero((la + lb) as nat);
        if la + lb < 255 {
            lemma_dlog_pow((la + lb) as nat);
            assert(gdiv(gmul(a, b), b) == pow255((la + 255) as nat));
            lemma_pow_period(la);
        } else {
            lemma_pow_period((la + lb - 255) as nat);
            lemma_dlog_pow((la + lb - 255) as nat);
            assert(gmul(a, b) == pow255((la + lb - 255) as nat));
            assert(gdiv(gmul(a, b), b) == pow255(la));
        }
    }
}

/// Exponents of alpha can be reduced modulo the order of the group.
pub proof fn lemma_pow_reduce(i: nat)
    ensures
        pow255((i % 255) as nat) == pow255(i),
    decreases i,
{
    if i >= 255 {
        lemma_pow_period((i - 255) as nat);
        lemma_pow_reduce((i - 255) as nat);
        assert((i - 255) % 255 == i % 255) by {
            vstd::arithmetic::div_mod::lemma_mod_sub_multiples_vanish(i as int, 255);
        }
    }
}

/// Precomputed exponentiation and logarithm tables for GF(256) arithmetic.
pub struct Gf256Tables {
    /// exp[i] = alpha^i; doubled to 512 entries so that sums of two
    /// logarithms can be looked up without a modular reduction.
    pub exp: Vec<u8>,
    /// log[x] = i for the x with alpha^i = x (the entry for 0 is unused).
    pub log: Vec<u8>,
}

impl Gf256Tables {
    /// The tables hold exactly the powers of alpha and their inverse mapping.
    pub open spec fn wf(&self) -> bool {
        &&& self.exp@.len() == 512
        &&& self.log@.len() == 256
        &&& forall|i: int| 0 <= i < 512 ==> self.exp@[i] == pow255(i as nat)
        &&& forall|a: u8| a != 0 ==> self.log@[a as int] == dlog(a)
    }

    /// Build the tables by walking the 255 powers of the generator.
    pub fn new() -> (r: Self)
        ensures
            r.wf(),
    {
        let mut exp: Vec<u8> = Vec::new();
        let mut x: u8 = 1;
        let mut i: usize = 0;
        while i < 512
            invariant
                i <= 512,
                exp@.len() == i,
                forall|j: int| 0 <= j < i ==> exp@[j] == pow255(j as nat),
                x == pow255(i as nat),
            decreases 512 - i,
        {
            exp.push(x);
            proof {
                assert(pow255((i + 1) as nat) == gf_step(pow255(i as nat)));
            }
            x = if x & 0x80u8 != 0 {
                (x << 1) ^ 0x1du8
            } else {
                x << 1
            };
            i += 1;
        }
        let mut log: Vec<u8> = Vec::new();
        let mut a: usize = 0;
        while a < 256
            invariant
                a <= 256,
                log@.len() == a,
            decreases 256 - a,
        {
            log.push(0u8);
            a += 1;
        }
        let mut j: usize = 0;
        while j < 255
            invariant
                j <= 255,
                log@.len() == 256,
                exp@.len() == 512,
                forall|t: int| 0 <= t < 512 ==> exp@[t] == pow255(t as nat),
                forall|t: nat| t < j ==> log@[pow255(t) as int] == t,
            decreases 255 - j,
        {
            let e = exp[j];
            proof {
                assert forall|t: nat| t < j implies pow255(t) != pow255(j as nat) by {
                    lemma_pow_distinct(t, j as nat);
                }
            }
            log[e as usize] = j as u8;
            j += 1;
        }
        proof {
            assert forall|b: u8| b != 0 implies log@[b as int] == dlog(b) by {
                lemma_dlog(b);
            }
        }
        Gf256Tables { exp, log }
    }

    /// Field multiplication through the tables.
    pub fn mul(&self, a: u8, b: u8) -> (r: u8)
        requires
            self.wf(),
        ensures
            r == gmul(a, b),
    {
        if a == 0 || b == 0 {
            0
        } else {
            proof {
                lemma_dlog(a);
                lemma_dlog(b);
            }
            let la = self.log[a as usize];
            let lb = self.log[b as usize];
            self.exp[(la as usize) + (lb as usize)]
        }
    }

    /// Field division; the divisor must be nonzero.
    pub fn div(&self, a: u8, b: u8) -> (r: u8)
        requires
            self.wf(),
            b != 0,
        ensures
            r == gdiv(a, b),
    {
        if a == 0 {
            0
        } else {
            proof {
                lemma_dlog(a);
                lemma_dlog(b);
            }
            let la = self.log[a as usize];
            let lb = self.log[b as usize];
            let diff: usize = if la >= lb {
                proof {
                    lemma_pow_period((la - lb) as nat);
                }
                (la - lb) as usize
            } else {
                255 + (la as usize) - (lb as usize)
            };
            self.exp[diff]
        }
    }

    /// Multiplicative inverse; the argument must be nonzero.
    pub fn inv(&self, a: u8) -> (r: u8)
        requires
            self.wf(),
            a != 0,
        ensures
            r == ginv(a),
            r == gdiv(1, a),
    {
        proof {
            lemma_dlog(a);
            lemma_dlog_one();
        }
        let la = self.log[a as usize];
        self.exp[255 - (la as usize)]
    }
}

/// Field multiplication on bare bytes.
pub fn gf_mul(a: u8, b: u8) -> (r: u8)
    ensures
        r == gmul(a, b),
{
    let t = Gf256Tables::new();
    t.mul(a, b)
}

/// Field division on bare bytes; the divisor must be nonzero.
pub fn gf_div(a: u8, b: u8) -> (r: u8)
    requires
        b != 0,
    ensures
        r == gdiv(a, b),
{
    let t = Gf256Tables::new();
    t.div(a, b)
}

/// Multiplicative inverse on bare bytes; the argument must be nonzero.
pub fn gf_inv(a: u8) -> (r: u8)
    requires
        a != 0,
    ensures
        r == ginv(a),
        r == gdiv(1, a),
{
    let t = Gf256Tables::new();
    t.inv(a)
}

/// The XOR-accumulated convolution sum at output index k, restricted to the
/// first n coefficients of p.
pub open spec fn conv_partial(p: Seq<u8>, q: Seq<u8>, k: int, n: int) -> u8
    decreases n,
{
    if n <= 0 {
        0u8
    } else {
        conv_partial(p, q, k, n - 1) ^ (if 0 <= k - (n - 1) < q.len() {
            gmul(p[n - 1], q[k - (n - 1)])
        } else {
            0u8
        })
    }
}

/// Coefficient k of the product of the polynomials p and q.
pub open spec fn conv_at(p: Seq<u8>, q: Seq<u8>, k: int) -> u8 {
    conv_partial(p, q, k, p.len() as int)
}

/// The product of the polynomials p and q: index i holds the coefficient of
/// x^i, and the result is empty when either input is.
pub open spec fn conv(p: Seq<u8>, q: Seq<u8>) -> Seq<u8> {
    if p.len() == 0 || q.len() == 0 {
        Seq::empty()
    } else {
        Seq::new((p.len() + q.len() - 1) as nat, |k: int| conv_at(p, q, k))
    }
}

/// At the highest output index only the two leading coefficients meet: the
/// partial convolution sum there is empty until the last term.
pub proof fn lemma_conv_top(p: Seq<u8>, q: Seq<u8>, m: int)
    requires
        p.len() >= 1,
        q.len() >= 1,
        0 <= m <= p.len(),
    ensures
        conv_partial(p, q, p.len() + q.len() - 2, m) == if m == p.len() {
            gmul(p[p.len() - 1], q[q.len() - 1])
        } else {
            0u8
        },
    decreases m,
{
    let k = p.len() + q.len() - 2;
    if m > 0 {
        lemma_conv_top(p, q, m - 1);
        if m == p.len() {
            assert(k - (m - 1) == q.len() - 1);
            lemma_xor_comm(0u8, gmul(p[m - 1], q[k - (m - 1)]));
            lemma_xor_zero(gmul(p[m - 1], q[k - (m - 1)]));
        } else {
            assert(!(k - (m - 1) < q.len()));
            lemma_xor_zero(conv_partial(p, q, k, m - 1));
        }
    }
}

/// Polynomial multiplication in GF(256)[x]: standard convolution with XOR as
/// the addition of the field.
pub fn poly_mul(p: &Vec<u8>, q: &Vec<u8>) -> (r: Vec<u8>)
    requires
        p@.len() + q@.len() <= usize::MAX,
    ensures
        r@ == conv(p@, q@),
{
    if p.len() == 0 || q.len() == 0 {
        let r: Vec<u8> = Vec::new();
        assert(r@ =~= conv(p@, q@));
        return r;
    }
    let t = Gf256Tables::new();
    let rlen: usize = p.len() + q.len() - 1;
    let mut result: Vec<u8> = Vec::new();
    let mut z: usize = 0;
    while z < rlen
        invariant
            z <= rlen,
            result@.len() == z,
            forall|k: int| 0 <= k < z ==> result@[k] == 0u8,
        decreases rlen - z,
    {
        result.push(0u8);
        z += 1;
    }
    let mut i: usize = 0;
    while i < p.len()
        invariant
            i <= p@.len(),
            t.wf(),
            q@.len() >= 1,
            result@.len() == rlen,
            rlen == p@.len() + q@.len() - 1,
            forall|k: int| 0 <= k < rlen ==> result@[k] == conv_partial(p@, q@, k, i as int),
        decreases p@.len() - i,
    {
        let mut j: usize = 0;
        while j < q.len()
            invariant
                j <= q@.len(),
                i < p@.len(),
                t.wf(),
                result@.len() == rlen,
                rlen == p@.len() + q@.len() - 1,
                forall|k: int|
                    0 <= k < rlen && i <= k < i + j ==> result@[k] == conv_partial(
                        p@,
                        q@,
                        k,
                        i as int,
                    ) ^ gmul(p@[i as int], q@[k - i]),
                forall|k: int|
                    0 <= k < rlen && !(i <= k < i + j) ==> result@[k] == conv_partial(
                        p@,
                        q@,
                        k,
                        i as int,
                    ),
            decreases q@.len() - j,
        {
            let idx: usize = i + j;
            let cur = result[idx];
            result[idx] = cur ^ t.mul(p[i], q[j]);
            j += 1;
        }
        proof {
            assert forall|k: int| 0 <= k < rlen implies result@[k] == conv_partial(
                p@,
                q@,
                k,
                i + 1,
            ) by {
                if i <= k < i + q@.len() {
                } else {
                    lemma_xor_zero(conv_partial(p@, q@, k, i as int));
                }
            }
        }
        i += 1;
    }
    proof {
        assert(result@ =~= conv(p@, q@));
    }
    result
}

} // verus!
