use vstd::prelude::*;

use crate::gf256::{
    Gf256Tables, conv, conv_at, gdiv, ginv, gmul, lemma_conv_top, lemma_mul_comm, lemma_mul_one,
    lemma_mul_zero, lemma_pow_reduce, lemma_xor_assoc, lemma_xor_comm, lemma_xor_zero, poly_mul,
    pow255,
};

verus! {

// Reed-Solomon encoder and decoder over GF(2^8).
//
// Systematic encoding: codeword = [data | parity].
// Polynomial convention: coefficient 0 is the constant term (x^0),
// coefficient i belongs to x^i.
// Codeword position mapping: position 0 carries the highest power of x, so
// byte idx stands for the coefficient of x^(n-1-idx).

/// Evaluation of a polynomial at x: coefficient 0 is the constant term.
pub open spec fn poly_eval(p: Seq<u8>, x: u8) -> u8
    decreases p.len(),
{
    if p.len() == 0 {
        0u8
    } else {
        p[0] ^ gmul(x, poly_eval(p.subrange(1, p.len() as int), x))
    }
}

/// Evaluate a polynomial at x in GF(256) by Horner's method, folding from
/// the highest-degree coefficient down.
pub fn poly_eval_at(poly: &Vec<u8>, x: u8) -> (r: u8)
    ensures
        r == poly_eval(poly@, x),
{
    let t = Gf256Tables::new();
    let mut result: u8 = 0;
    let mut i: usize = poly.len();
    while i > 0
        invariant
            i <= poly@.len(),
            t.wf(),
            result == poly_eval(poly@.subrange(i as int, poly@.len() as int), x),
        decreases i,
    {
        i -= 1;
        let ghost prev = result;
        let m = t.mul(result, x);
        result = m ^ poly[i];
        proof {
            let sub = poly@.subrange(i as int, poly@.len() as int);
            assert(sub.subrange(1, sub.len() as int) =~= poly@.subrange(
                i + 1,
                poly@.len() as int,
            ));
            lemma_mul_comm(prev, x);
            lemma_xor_comm(gmul(x, prev), sub[0]);
        }
    }
    proof {
        assert(poly@.subrange(0, poly@.len() as int) =~= poly@);
    }
    result
}

/// The generator polynomial for nsym parity symbols:
/// g(x) = (x + alpha^0)(x + alpha^1)...(x + alpha^(nsym-1)).
pub open spec fn generator_spec(nsym: nat) -> Seq<u8>
    decreases nsym,
{
    if nsym == 0 {
        seq![1u8]
    } else {
        conv(generator_spec((nsym - 1) as nat), seq![pow255((nsym - 1) as nat), 1u8])
    }
}

/// Build the generator polynomial for nsym parity symbols: degree exactly
/// nsym, monic, with roots alpha^0 .. alpha^(nsym-1).
pub fn build_generator(nsym: usize) -> (r: Vec<u8>)
    requires
        nsym <= usize::MAX - 2,
    ensures
        r@ == generator_spec(nsym as nat),
        r@.len() == nsym + 1,
        r@[nsym as int] == 1,
{
    let t = Gf256Tables::new();
    let mut g: Vec<u8> = Vec::new();
    g.push(1u8);
    proof {
        assert(g@ =~= generator_spec(0));
    }
    let mut i: usize = 0;
    while i < nsym
        invariant
            i <= nsym,
            nsym <= usize::MAX - 2,
            t.wf(),
            g@ == generator_spec(i as nat),
            g@.len() == i + 1,
            g@[i as int] == 1,
        decreases nsym - i,
    {
        let root = t.exp[i % 255];
        let mut factor: Vec<u8> = Vec::new();
        factor.push(root);
        factor.push(1u8);
        proof {
            lemma_pow_reduce(i as nat);
            assert(factor@ =~= seq![pow255(i as nat), 1u8]);
        }
        let ghost old_g = g@;
        g = poly_mul(&g, &factor);
        proof {
            lemma_conv_top(old_g, factor@, (i + 1) as int);
            lemma_mul_one(1u8);
            assert(g@[i + 1] == conv_at(old_g, factor@, i + 1));
        }
        i += 1;
    }
    g
}

/// A run of zero bytes.
pub open spec fn zero_seq(n: nat) -> Seq<u8> {
    Seq::new(n, |t: int| 0u8)
}

/// One round of synthetic division: fold coefficient i of the working
/// buffer into the nsym positions after it, weighted by the generator.
pub open spec fn synth_step(cw: Seq<u8>, gen: Seq<u8>, nsym: nat, i: int) -> Seq<u8> {
    Seq::new(
        cw.len(),
        |t: int|
            if i < t <= i + nsym {
                cw[t] ^ gmul(gen[nsym - (t - i)], cw[i])
            } else {
                cw[t]
            },
    )
}

/// The working buffer after the first `steps` rounds of synthetic division.
pub open spec fn synth_div(cw: Seq<u8>, gen: Seq<u8>, nsym: nat, steps: int) -> Seq<u8>
    decreases steps,
{
    if steps <= 0 {
        cw
    } else {
        synth_step(synth_div(cw, gen, nsym, steps - 1), gen, nsym, steps - 1)
    }
}

/// The systematic codeword for a message: the message itself, followed by
/// the parity remainder of message(x) * x^nsym modulo the generator.
pub open spec fn encode_spec(msg: Seq<u8>, nsym: nat, gen: Seq<u8>) -> Seq<u8> {
    let n = msg.len() + nsym;
    let after = synth_div(msg + zero_seq(nsym), gen, nsym, msg.len() as int);
    msg + after.subrange(msg.len() as int, n as int)
}

/// Systematic Reed-Solomon encode: append nsym parity bytes to the message
/// by synthetic division against the generator polynomial.
pub fn encode(message: &Vec<u8>, nsym: usize, generator: &Vec<u8>) -> (r: Vec<u8>)
    requires
        generator@.len() >= nsym,
        message@.len() + nsym <= usize::MAX,
    ensures
        r@ == encode_spec(message@, nsym as nat, generator@),
        r@.len() == message@.len() + nsym,
        forall|t: int| 0 <= t < message@.len() ==> r@[t] == message@[t],
{
    let t = Gf256Tables::new();
    let k = message.len();
    let n = k + nsym;
    let mut codeword: Vec<u8> = Vec::new();
    let mut z: usize = 0;
    while z < k
        invariant
            z <= k,
            k == message@.len(),
            codeword@.len() == z,
            forall|i: int| 0 <= i < z ==> codeword@[i] == message@[i],
        decreases k - z,
    {
        codeword.push(message[z]);
        z += 1;
    }
    while z < n
        invariant
            k <= z <= n,
            n == k + nsym,
            k == message@.len(),
            codeword@.len() == z,
            forall|i: int| 0 <= i < k ==> codeword@[i] == message@[i],
            forall|i: int| k <= i < z ==> codeword@[i] == 0u8,
        decreases n - z,
    {
        codeword.push(0u8);
        z += 1;
    }
    let ghost init = codeword@;
    proof {
        assert(init =~= message@ + zero_seq(nsym as nat));
    }
    let mut i: usize = 0;
    while i < k
        invariant
            i <= k,
            k == message@.len(),
            n == k + nsym,
            generator@.len() >= nsym,
            t.wf(),
            codeword@.len() == n,
            codeword@ == synth_div(init, generator@, nsym as nat, i as int),
        decreases k - i,
    {
        let ghost prev = codeword@;
        let coef = codeword[i];
        if coef != 0 {
            let mut j: usize = 1;
            while j <= nsym
                invariant
                    1 <= j <= nsym + 1,
                    i < k,
                    k == message@.len(),
                    n == k + nsym,
                    generator@.len() >= nsym,
                    t.wf(),
                    codeword@.len() == n,
                    coef == prev[i as int],
                    forall|s: int|
                        0 <= s < n && i < s < i + j ==> codeword@[s] == prev[s] ^ gmul(
                            generator@[nsym - (s - i)],
                            prev[i as int],
                        ),
                    forall|s: int|
                        0 <= s < n && !(i < s < i + j) ==> codeword@[s] == prev[s],
                decreases nsym + 1 - j,
            {
                let idx: usize = i + j;
                let cur = codeword[idx];
                codeword[idx] = cur ^ t.mul(generator[nsym - j], coef);
                j += 1;
            }
            proof {
                assert(codeword@ =~= synth_step(prev, generator@, nsym as nat, i as int));
            }
        } else {
            proof {
                assert forall|s: int| 0 <= s < n implies synth_step(
                    prev,
                    generator@,
                    nsym as nat,
                    i as int,
                )[s] == prev[s] by {
                    if i < s <= i + nsym {
                        lemma_mul_zero(generator@[nsym - (s - i)]);
                        lemma_xor_zero(prev[s]);
                    }
                }
                assert(codeword@ =~= synth_step(prev, generator@, nsym as nat, i as int));
            }
        }
        i += 1;
    }
    let mut z2: usize = 0;
    let ghost after = codeword@;
    while z2 < k
        invariant
            z2 <= k,
            k == message@.len(),
            n == k + nsym,
            codeword@.len() == n,
            forall|s: int| 0 <= s < z2 ==> codeword@[s] == message@[s],
            forall|s: int| z2 <= s < n ==> codeword@[s] == after[s],
        decreases k - z2,
    {
        codeword[z2] = message[z2];
        z2 += 1;
    }
    proof {
        assert(codeword@ =~= encode_spec(message@, nsym as nat, generator@));
    }
    codeword
}

/// One addend of a syndrome: codeword byte idx weighted by
/// alpha^(j * (n - 1 - idx)).
pub open spec fn synd_term(cw: Seq<u8>, j: int, idx: int) -> u8 {
    gmul(cw[idx], pow255(((j * (cw.len() - 1 - idx)) % 255) as nat))
}

/// The XOR-accumulated syndrome sum over the first m codeword bytes.
pub open spec fn synd_partial(cw: Seq<u8>, j: int, m: int) -> u8
    decreases m,
{
    if m <= 0 {
        0u8
    } else {
        synd_partial(cw, j, m - 1) ^ synd_term(cw, j, m - 1)
    }
}

/// Syndrome j of a codeword: the received polynomial evaluated at alpha^j.
pub open spec fn syndrome_at(cw: Seq<u8>, j: int) -> u8 {
    synd_partial(cw, j, cw.len() as int)
}

/// The nsym syndromes of a codeword.
pub open spec fn syndromes_spec(cw: Seq<u8>, nsym: nat) -> Seq<u8> {
    Seq::new(nsym, |j: int| syndrome_at(cw, j))
}

/// Every entry of the sequence is zero.
pub open spec fn all_zero(s: Seq<u8>) -> bool {
    forall|i: int| 0 <= i < s.len() ==> s[i] == 0
}

/// Compute the syndromes S_j = r(alpha^j) for j = 0..nsym-1, where r(x) is
/// the received codeword read as a polynomial (byte idx is the coefficient
/// of x^(n-1-idx)).
pub fn calc_syndromes(codeword: &Vec<u8>, nsym: usize) -> (r: Vec<u8>)
    requires
        nsym * codeword@.len() <= usize::MAX,
    ensures
        r@ == syndromes_spec(codeword@, nsym as nat),
{
    let t = Gf256Tables::new();
    let n = codeword.len();
    let mut syndromes: Vec<u8> = Vec::new();
    let mut j: usize = 0;
    while j < nsym
        invariant
            j <= nsym,
            n == codeword@.len(),
            nsym * n <= usize::MAX,
            t.wf(),
            syndromes@.len() == j,
            forall|t2: int| 0 <= t2 < j ==> syndromes@[t2] == syndrome_at(codeword@, t2),
        decreases nsym - j,
    {
        let mut s: u8 = 0;
        let mut idx: usize = 0;
        while idx < n
            invariant
                idx <= n,
                j < nsym,
                n == codeword@.len(),
                nsym * n <= usize::MAX,
                t.wf(),
                s == synd_partial(codeword@, j as int, idx as int),
            decreases n - idx,
        {
            let power: usize = n - 1 - idx;
            proof {
                assert(j * power <= nsym * n) by (nonlinear_arith)
                    requires
                        j < nsym,
                        power < n,
                        j >= 0,
                        power >= 0,
                ;
            }
            let e: usize = (j * power) % 255;
            let alpha_power = t.exp[e];
            s = s ^ t.mul(codeword[idx], alpha_power);
            idx += 1;
        }
        syndromes.push(s);
        j += 1;
    }
    proof {
        assert(syndromes@ =~= syndromes_spec(codeword@, nsym as nat));
    }
    syndromes
}

/// Report whether every syndrome is zero (no detectable error).
pub fn syndromes_zero(syndromes: &Vec<u8>) -> (r: bool)
    ensures
        r == all_zero(syndromes@),
{
    let mut i: usize = 0;
    while i < syndromes.len()
        invariant
            i <= syndromes@.len(),
            forall|j: int| 0 <= j < i ==> syndromes@[j] == 0,
        decreases syndromes@.len() - i,
    {
        if syndromes[i] != 0 {
            return false;
        }
        i += 1;
    }
    true
}

/// The running state of the Berlekamp-Massey iteration: current locator c,
/// previous locator b, error-count estimate l, shift counter m, and the
/// last nonzero discrepancy dp.
pub struct BmState {
    pub c: Seq<u8>,
    pub b: Seq<u8>,
    pub l: nat,
    pub m: nat,
    pub dp: u8,
}

/// The XOR-accumulated discrepancy sum over locator coefficients 1..=m.
pub open spec fn bm_disc_partial(c: Seq<u8>, synd: Seq<u8>, r: int, m: int) -> u8
    decreases m,
{
    if m < 1 {
        0u8
    } else {
        bm_disc_partial(c, synd, r, m - 1) ^ gmul(c[m], synd[r - m])
    }
}

/// The discrepancy at round r.
pub open spec fn bm_disc(st: BmState, synd: Seq<u8>, r: int) -> u8 {
    let lim = if st.l as int <= st.c.len() - 1 {
        st.l as int
    } else {
        st.c.len() - 1
    };
    synd[r] ^ bm_disc_partial(st.c, synd, r, lim)
}

/// Zero-pad a locator to the given length.
pub open spec fn bm_pad(c: Seq<u8>, len: int) -> Seq<u8> {
    if c.len() >= len {
        c
    } else {
        c + Seq::new((len - c.len()) as nat, |t: int| 0u8)
    }
}

/// Fold scale * x^m * b(x) into c(x), padding c as far as needed.
pub open spec fn bm_upd(c: Seq<u8>, b: Seq<u8>, m: nat, scale: u8) -> Seq<u8> {
    let cp = bm_pad(c, b.len() as int + m as int);
    Seq::new(
        cp.len(),
        |t: int|
            if m <= t < m + b.len() {
                cp[t] ^ gmul(scale, b[t - m])
            } else {
                cp[t]
            },
    )
}

/// One round of the Massey update rule.
pub open spec fn bm_step(st: BmState, synd: Seq<u8>, r: int) -> BmState {
    let d = bm_disc(st, synd, r);
    if d == 0 {
        BmState { c: st.c, b: st.b, l: st.l, m: st.m + 1, dp: st.dp }
    } else if 2 * st.l <= r {
        BmState {
            c: bm_upd(st.c, st.b, st.m, gmul(d, ginv(st.dp))),
            b: st.c,
            l: (r + 1 - st.l) as nat,
            m: 1,
            dp: d,
        }
    } else {
        BmState {
            c: bm_upd(st.c, st.b, st.m, gmul(d, ginv(st.dp))),
            b: st.b,
            l: st.l,
            m: st.m + 1,
            dp: st.dp,
        }
    }
}

/// The state before any syndrome has been processed.
pub open spec fn bm_init() -> BmState {
    BmState { c: seq![1u8], b: seq![1u8], l: 0, m: 1, dp: 1u8 }
}

/// The state after the first r rounds.
pub open spec fn bm_iter(synd: Seq<u8>, r: int) -> BmState
    decreases r,
{
    if r <= 0 {
        bm_init()
    } else {
        bm_step(bm_iter(synd, r - 1), synd, r - 1)
    }
}

/// Trailing zero coefficients removed; the constant term always stays.
pub open spec fn trim_spec(c: Seq<u8>) -> Seq<u8>
    decreases c.len(),
{
    if c.len() <= 1 || c.last() != 0 {
        c
    } else {
        trim_spec(c.drop_last())
    }
}

/// The error locator polynomial delivered by Berlekamp-Massey.
pub open spec fn bm_spec(synd: Seq<u8>) -> Seq<u8> {
    trim_spec(bm_iter(synd, synd.len() as int).c)
}

proof fn lemma_trim_len(c: Seq<u8>)
    requires
        c.len() >= 1,
    ensures
        1 <= trim_spec(c).len() <= c.len(),
    decreases c.len(),
{
    if !(c.len() <= 1 || c.last() != 0) {
        lemma_trim_len(c.drop_last());
    }
}

proof fn lemma_bm_c_len(synd: Seq<u8>, r: int)
    ensures
        bm_iter(synd, r).c.len() >= 1,
    decreases r,
{
    if r > 0 {
        lemma_bm_c_len(synd, r - 1);
    }
}

/// The locator delivered by Berlekamp-Massey is never empty: the constant
/// term survives trimming.
pub proof fn lemma_bm_spec_len(synd: Seq<u8>)
    ensures
        bm_spec(synd).len() >= 1,
{
    lemma_bm_c_len(synd, synd.len() as int);
    lemma_trim_len(bm_iter(synd, synd.len() as int).c);
}

/// Fold scale * x^m * b(x) into c, extending c with zeros as far as needed.
fn bm_update(c: &mut Vec<u8>, b: &Vec<u8>, m: usize, scale: u8, tab: &Gf256Tables)
    requires
        tab.wf(),
        b@.len() + m <= usize::MAX,
        m >= 1,
        old(c)@.len() >= 1,
    ensures
        final(c)@ == bm_upd(old(c)@, b@, m as nat, scale),
        final(c)@.len() >= old(c)@.len(),
        final(c)@[0] == old(c)@[0],
{
    let target: usize = b.len() + m;
    while c.len() < target
        invariant
            old(c)@.len() <= c@.len(),
            c@.len() <= (if old(c)@.len() >= target {
                old(c)@.len() as int
            } else {
                target as int
            }),
            c@.subrange(0, old(c)@.len() as int) == old(c)@,
            forall|t: int| old(c)@.len() <= t < c@.len() ==> c@[t] == 0u8,
        decreases target - c@.len(),
    {
        c.push(0u8);
    }
    proof {
        assert(c@ =~= bm_pad(old(c)@, b@.len() as int + m as int));
    }
    let ghost cp = c@;
    let mut ib: usize = 0;
    while ib < b.len()
        invariant
            ib <= b@.len(),
            b@.len() + m <= usize::MAX,
            tab.wf(),
            cp == bm_pad(old(c)@, b@.len() as int + m as int),
            c@.len() == cp.len(),
            cp.len() >= b@.len() + m,
            forall|t: int| m <= t < m + ib ==> c@[t] == cp[t] ^ gmul(scale, b@[t - m]),
            forall|t: int| 0 <= t < c@.len() && !(m <= t < m + ib) ==> c@[t] == cp[t],
        decreases b@.len() - ib,
    {
        let idx: usize = ib + m;
        let cur = c[idx];
        c[idx] = cur ^ tab.mul(scale, b[ib]);
        ib += 1;
    }
    proof {
        assert(c@ =~= bm_upd(old(c)@, b@, m as nat, scale));
    }
}

/// Berlekamp-Massey: derive the minimal error locator polynomial consistent
/// with the syndromes.  The result always has constant term 1; its degree is
/// the number of hypothesized errors.
pub fn berlekamp_massey(syndromes: &Vec<u8>) -> (res: Vec<u8>)
    requires
        2 * syndromes@.len() + 2 <= usize::MAX,
    ensures
        res@ == bm_spec(syndromes@),
        res@.len() >= 1,
        res@[0] == 1,
{
    let tab = Gf256Tables::new();
    let n = syndromes.len();
    let mut c: Vec<u8> = Vec::new();
    c.push(1u8);
    let mut b: Vec<u8> = Vec::new();
    b.push(1u8);
    let mut l: usize = 0;
    let mut m: usize = 1;
    let mut delta_prev: u8 = 1;
    proof {
        assert(c@ =~= bm_init().c);
        assert(b@ =~= bm_init().b);
    }
    let mut r: usize = 0;
    while r < n
        invariant
            r <= n,
            n == syndromes@.len(),
            2 * n + 2 <= usize::MAX,
            tab.wf(),
            c@ == bm_iter(syndromes@, r as int).c,
            b@ == bm_iter(syndromes@, r as int).b,
            l == bm_iter(syndromes@, r as int).l,
            m == bm_iter(syndromes@, r as int).m,
            delta_prev == bm_iter(syndromes@, r as int).dp,
            c@.len() >= 1,
            c@[0] == 1,
            b@.len() >= 1,
            delta_prev != 0,
            l <= r,
            m >= 1,
            c@.len() <= r + 1,
            b@.len() + m <= r + 2,
        decreases n - r,
    {
        let ghost st = bm_iter(syndromes@, r as int);
        let mut delta: u8 = syndromes[r];
        proof {
            lemma_xor_zero(syndromes@[r as int]);
        }
        let lim: usize = if l < c.len() - 1 {
            l
        } else {
            c.len() - 1
        };
        let mut i: usize = 1;
        while i <= lim
            invariant
                1 <= i <= lim + 1,
                lim < c@.len(),
                lim <= l,
                l <= r,
                r < n,
                n == syndromes@.len(),
                tab.wf(),
                delta == syndromes@[r as int] ^ bm_disc_partial(c@, syndromes@, r as int, i - 1),
            decreases lim + 1 - i,
        {
            let ghost d0 = delta;
            let term = tab.mul(c[i], syndromes[r - i]);
            delta = delta ^ term;
            proof {
                lemma_xor_assoc(
                    syndromes@[r as int],
                    bm_disc_partial(c@, syndromes@, r as int, i - 1),
                    term,
                );
            }
            i += 1;
        }
        proof {
            assert(delta == bm_disc(st, syndromes@, r as int));
            assert(bm_iter(syndromes@, r + 1) == bm_step(st, syndromes@, r as int));
        }
        if delta == 0 {
            m += 1;
        } else if 2 * l <= r {
            let mut prev_c: Vec<u8> = Vec::new();
            let mut pc: usize = 0;
            while pc < c.len()
                invariant
                    pc <= c@.len(),
                    prev_c@ == c@.subrange(0, pc as int),
                decreases c@.len() - pc,
            {
                prev_c.push(c[pc]);
                pc += 1;
            }
            proof {
                assert(prev_c@ =~= c@);
            }
            let scale = tab.mul(delta, tab.inv(delta_prev));
            bm_update(&mut c, &b, m, scale, &tab);
            l = r + 1 - l;
            b = prev_c;
            delta_prev = delta;
            m = 1;
        } else {
            let scale = tab.mul(delta, tab.inv(delta_prev));
            bm_update(&mut c, &b, m, scale, &tab);
            m += 1;
        }
        r += 1;
    }
    while c.len() > 1 && c[c.len() - 1] == 0
        invariant
            c@.len() >= 1,
            c@[0] == 1,
            trim_spec(c@) == bm_spec(syndromes@),
        decreases c@.len(),
    {
        c.pop();
    }
    c
}

/// The field point at which the locator is probed for codeword position
/// pos: the inverse of X_pos = alpha^(n-1-pos), with a normalized exponent.
pub open spec fn pos_inv_point(n: int, pos: int) -> u8 {
    pow255(((255 - ((n - 1 - pos) % 255)) % 255) as nat)
}

/// Position pos is an error location when the locator vanishes at the
/// inverse of its field point.
pub open spec fn is_error_pos(sigma: Seq<u8>, n: int, pos: int) -> bool {
    poly_eval(sigma, pos_inv_point(n, pos)) == 0
}

/// The error positions below m, in increasing order.
pub open spec fn chien_upto(sigma: Seq<u8>, n: int, m: int) -> Seq<usize>
    decreases m,
{
    if m <= 0 {
        Seq::empty()
    } else if is_error_pos(sigma, n, m - 1) {
        chien_upto(sigma, n, m - 1).push((m - 1) as usize)
    } else {
        chien_upto(sigma, n, m - 1)
    }
}

/// All error positions of a codeword of length n, in increasing order.
pub open spec fn chien_spec(sigma: Seq<u8>, n: int) -> Seq<usize> {
    chien_upto(sigma, n, n)
}

/// The positions delivered by the search are exactly the roots below m,
/// listed strictly increasing.
pub proof fn lemma_chien_props(sigma: Seq<u8>, n: int, m: int)
    requires
        0 <= m <= usize::MAX,
    ensures
        forall|i: int|
            0 <= i < chien_upto(sigma, n, m).len() ==> (#[trigger] chien_upto(sigma, n, m)[i])
                < m,
        forall|i: int, j: int|
            0 <= i < j < chien_upto(sigma, n, m).len() ==> chien_upto(sigma, n, m)[i]
                < chien_upto(sigma, n, m)[j],
        forall|p: usize|
            chien_upto(sigma, n, m).contains(p) <==> (p < m && is_error_pos(
                sigma,
                n,
                p as int,
            )),
    decreases m,
{
    if m > 0 {
        lemma_chien_props(sigma, n, m - 1);
        let prev = chien_upto(sigma, n, m - 1);
        let cur = chien_upto(sigma, n, m);
        assert forall|p: usize| cur.contains(p) implies (p < m && is_error_pos(
            sigma,
            n,
            p as int,
        )) by {
            let i = choose|i: int| 0 <= i < cur.len() && cur[i] == p;
            if i < prev.len() {
                assert(prev.contains(p));
            } else {
                assert(cur[i] == (m - 1) as usize);
                assert(p as int == m - 1);
            }
        }
        assert forall|p: usize| (p < m && is_error_pos(sigma, n, p as int)) implies cur.contains(
            p,
        ) by {
            if p < m - 1 {
                assert(prev.contains(p));
                let i = choose|i: int| 0 <= i < prev.len() && prev[i] == p;
                assert(cur[i] == p);
            } else {
                assert(is_error_pos(sigma, n, m - 1));
                assert(cur[cur.len() - 1] == p);
            }
        }
    }
}

/// Chien search: probe every codeword position and collect those where the
/// error locator polynomial has a root.
pub fn chien_search(sigma: &Vec<u8>, n: usize) -> (r: Vec<usize>)
    ensures
        r@ == chien_spec(sigma@, n as int),
{
    let t = Gf256Tables::new();
    let mut positions: Vec<usize> = Vec::new();
    let mut pos: usize = 0;
    while pos < n
        invariant
            pos <= n,
            t.wf(),
            positions@ == chien_upto(sigma@, n as int, pos as int),
        decreases n - pos,
    {
        let e: usize = (n - 1 - pos) % 255;
        let x_inv = t.exp[(255 - e) % 255];
        if poly_eval_at(sigma, x_inv) == 0 {
            positions.push(pos);
        }
        pos += 1;
    }
    positions
}

/// The XOR-accumulated sum over the first m locator coefficients of the
/// error-evaluator coefficient at index i.
pub open spec fn omega_partial(synd: Seq<u8>, sigma: Seq<u8>, i: int, m: int) -> u8
    decreases m,
{
    if m <= 0 {
        0u8
    } else {
        omega_partial(synd, sigma, i, m - 1) ^ (if m - 1 <= i {
            gmul(synd[i - (m - 1)], sigma[m - 1])
        } else {
            0u8
        })
    }
}

/// Coefficient i of the error evaluator Omega(x) = S(x) * sigma(x) mod x^nsym.
pub open spec fn omega_at(synd: Seq<u8>, sigma: Seq<u8>, i: int) -> u8 {
    omega_partial(synd, sigma, i, sigma.len() as int)
}

/// The error-evaluator polynomial, one coefficient per syndrome.
pub open spec fn omega_spec(synd: Seq<u8>, sigma: Seq<u8>) -> Seq<u8> {
    Seq::new(synd.len(), |i: int| omega_at(synd, sigma, i))
}

/// The formal derivative of the locator in characteristic 2: odd-indexed
/// coefficients move down one place, even powers vanish.
pub open spec fn sigma_prime_spec(sigma: Seq<u8>) -> Seq<u8> {
    Seq::new(
        sigma.len(),
        |i: int|
            if i % 2 == 0 && i + 1 < sigma.len() {
                sigma[i + 1]
            } else {
                0u8
            },
    )
}

/// The Forney magnitude for one error position: X * Omega(X^-1) / sigma'(X^-1),
/// or 0 in the degenerate case of a vanishing derivative.
pub open spec fn forney_mag(synd: Seq<u8>, sigma: Seq<u8>, n: int, pos: int) -> u8 {
    let e = (n - 1 - pos) % 255;
    let xj = pow255(e as nat);
    let xj_inv = pow255(((255 - e) % 255) as nat);
    let om = poly_eval(omega_spec(synd, sigma), xj_inv);
    let sp = poly_eval(sigma_prime_spec(sigma), xj_inv);
    if sp == 0 {
        0u8
    } else {
        gmul(xj, gdiv(om, sp))
    }
}

/// The error magnitudes, one per reported position, in the same order.
pub open spec fn forney_spec(synd: Seq<u8>, sigma: Seq<u8>, positions: Seq<usize>, n: int) -> Seq<
    u8,
> {
    Seq::new(positions.len(), |t: int| forney_mag(synd, sigma, n, positions[t] as int))
}

/// Forney algorithm: compute the error magnitude at each located position.
pub fn forney(syndromes: &Vec<u8>, sigma: &Vec<u8>, positions: &Vec<usize>, n: usize) -> (r: Vec<
    u8,
>)
    requires
        forall|i: int| 0 <= i < positions@.len() ==> positions@[i] < n,
    ensures
        r@ == forney_spec(syndromes@, sigma@, positions@, n as int),
{
    let t = Gf256Tables::new();
    let nsym = syndromes.len();
    let mut omega: Vec<u8> = Vec::new();
    let mut i: usize = 0;
    while i < nsym
        invariant
            i <= nsym,
            nsym == syndromes@.len(),
            t.wf(),
            omega@.len() == i,
            forall|k: int| 0 <= k < i ==> omega@[k] == omega_at(syndromes@, sigma@, k),
        decreases nsym - i,
    {
        let mut v: u8 = 0;
        let mut j: usize = 0;
        while j < sigma.len()
            invariant
                j <= sigma@.len(),
                i < nsym,
                nsym == syndromes@.len(),
                t.wf(),
                v == omega_partial(syndromes@, sigma@, i as int, j as int),
            decreases sigma@.len() - j,
        {
            if i >= j {
                v = v ^ t.mul(syndromes[i - j], sigma[j]);
            } else {
                proof {
                    lemma_xor_zero(v);
                }
            }
            j += 1;
        }
        omega.push(v);
        i += 1;
    }
    proof {
        assert(omega@ =~= omega_spec(syndromes@, sigma@));
    }
    let mut sigma_prime: Vec<u8> = Vec::new();
    let mut s: usize = 0;
    while s < sigma.len()
        invariant
            s <= sigma@.len(),
            sigma_prime@.len() == s,
            forall|k: int| 0 <= k < s ==> sigma_prime@[k] == sigma_prime_spec(sigma@)[k],
        decreases sigma@.len() - s,
    {
        if s % 2 == 0 && s + 1 < sigma.len() {
            sigma_prime.push(sigma[s + 1]);
        } else {
            sigma_prime.push(0u8);
        }
        s += 1;
    }
    proof {
        assert(sigma_prime@ =~= sigma_prime_spec(sigma@));
    }
    let mut magnitudes: Vec<u8> = Vec::new();
    let mut p: usize = 0;
    while p < positions.len()
        invariant
            p <= positions@.len(),
            t.wf(),
            omega@ == omega_spec(syndromes@, sigma@),
            sigma_prime@ == sigma_prime_spec(sigma@),
            forall|i2: int| 0 <= i2 < positions@.len() ==> positions@[i2] < n,
            magnitudes@.len() == p,
            forall|t2: int|
                0 <= t2 < p ==> magnitudes@[t2] == forney_mag(
                    syndromes@,
                    sigma@,
                    n as int,
                    positions@[t2] as int,
                ),
        decreases positions@.len() - p,
    {
        let pos = positions[p];
        let x_exp: usize = (n - 1 - pos) % 255;
        let x_j = t.exp[x_exp];
        let x_j_inv = t.exp[(255 - x_exp) % 255];
        let omega_val = poly_eval_at(&omega, x_j_inv);
        let sigma_prime_val = poly_eval_at(&sigma_prime, x_j_inv);
        if sigma_prime_val == 0 {
            magnitudes.push(0);
        } else {
            magnitudes.push(t.mul(x_j, t.div(omega_val, sigma_prime_val)));
        }
        p += 1;
    }
    proof {
        assert(magnitudes@ =~= forney_spec(syndromes@, sigma@, positions@, n as int));
    }
    magnitudes
}

/// The failure kinds of a decode, distinguished so that a caller can tell a
/// bad input shape from uncorrectable corruption without parsing text.
#[derive(Clone, Copy, Debug, PartialEq, Eq, Structural)]
pub enum RsError {
    /// The byte sequence handed in does not have the declared length.
    LengthMismatch { expected: usize, actual: usize },
    /// The codeword is shorter than the parity-symbol count.
    CodewordTooShort,
    /// Nonzero syndromes with a degree-0 locator: detected but unlocatable.
    UncorrectableTrivialLocator,
    /// The locator degree exceeds the guaranteed correction radius.
    TooManyErrors,
    /// Chien search found a different number of roots than the locator degree.
    LocatorSearchMismatch,
    /// The corrected codeword still has nonzero syndromes.
    VerificationFailed,
}

/// The codeword with the first t corrections applied: magnitude mags[s] is
/// XORed into the byte at positions[s].
pub open spec fn apply_corrections(cw: Seq<u8>, positions: Seq<usize>, mags: Seq<u8>, t: int) -> Seq<
    u8,
>
    decreases t,
{
    if t <= 0 {
        cw
    } else {
        let prev = apply_corrections(cw, positions, mags, t - 1);
        prev.update(positions[t - 1] as int, prev[positions[t - 1] as int] ^ mags[t - 1])
    }
}

/// Everything decode promises, as one predicate over its result: each
/// failure kind comes exactly on its condition, and a success carries the
/// corrected message and the corrected positions.
pub open spec fn decode_post(
    cw: Seq<u8>,
    nsym: nat,
    res: Result<(Vec<u8>, Vec<usize>), RsError>,
) -> bool {
    let n = cw.len() as int;
    let k = n - nsym;
    let synd = syndromes_spec(cw, nsym);
    let sigma = bm_spec(synd);
    let deg = sigma.len() - 1;
    let positions = chien_spec(sigma, n);
    let mags = forney_spec(synd, sigma, positions, n);
    let corrected = apply_corrections(cw, positions, mags, positions.len() as int);
    &&& ((res matches Err(e) && e == RsError::CodewordTooShort) <==> n < nsym)
    &&& (n >= nsym && all_zero(synd) ==> (res matches Ok(p) && p.0@ == cw.take(k) && p.1@
        =~= Seq::<usize>::empty()))
    &&& ((res matches Err(e) && e == RsError::UncorrectableTrivialLocator) <==> (n >= nsym
        && !all_zero(synd) && deg == 0))
    &&& ((res matches Err(e) && e == RsError::TooManyErrors) <==> (n >= nsym && !all_zero(synd)
        && deg > 0 && 2 * deg > nsym))
    &&& ((res matches Err(e) && e == RsError::LocatorSearchMismatch) <==> (n >= nsym && !all_zero(
        synd,
    ) && 0 < deg && 2 * deg <= nsym && positions.len() != deg))
    &&& ((res matches Err(e) && e == RsError::VerificationFailed) <==> (n >= nsym && !all_zero(
        synd,
    ) && 0 < deg && 2 * deg <= nsym && positions.len() == deg && !all_zero(
        syndromes_spec(corrected, nsym),
    )))
    &&& (!all_zero(synd) ==> (res matches Ok(p) ==> p.0@ == corrected.take(k) && p.1@ == positions
        && all_zero(syndromes_spec(corrected, nsym))))
    &&& (res matches Ok(p) <==> (n >= nsym && (all_zero(synd) || (0 < deg && 2 * deg <= nsym
        && positions.len() == deg && all_zero(syndromes_spec(corrected, nsym))))))
    &&& (res matches Ok(p) ==> p.0@.len() == k)
}

/// Decode a Reed-Solomon codeword: compute syndromes, locate errors with
/// Berlekamp-Massey and Chien search, weigh them with Forney, correct, and
/// re-verify.  On success the message and the corrected positions come back.
pub fn decode(codeword: &Vec<u8>, nsym: usize) -> (res: Result<(Vec<u8>, Vec<usize>), RsError>)
    requires
        codeword@.len() >= nsym ==> nsym * codeword@.len() <= usize::MAX,
        codeword@.len() >= nsym ==> 2 * codeword@.len() + 2 <= usize::MAX,
    ensures
        decode_post(codeword@, nsym as nat, res),
{
    let n = codeword.len();
    if n < nsym {
        return Err(RsError::CodewordTooShort);
    }
    let k = n - nsym;
    let syndromes = calc_syndromes(codeword, nsym);
    if syndromes_zero(&syndromes) {
        let mut msg: Vec<u8> = Vec::new();
        let mut z: usize = 0;
        while z < k
            invariant
                z <= k,
                k <= codeword@.len(),
                msg@ == codeword@.take(z as int),
            decreases k - z,
        {
            msg.push(codeword[z]);
            proof {
                assert(msg@ =~= codeword@.take(z + 1));
            }
            z += 1;
        }
        let positions: Vec<usize> = Vec::new();
        proof {
            assert(positions@ =~= Seq::<usize>::empty());
        }
        return Ok((msg, positions));
    }
    let sigma = berlekamp_massey(&syndromes);
    let num_errors = sigma.len() - 1;
    if num_errors == 0 {
        return Err(RsError::UncorrectableTrivialLocator);
    }
    if num_errors > nsym / 2 {
        return Err(RsError::TooManyErrors);
    }
    let positions = chien_search(&sigma, n);
    if positions.len() != num_errors {
        return Err(RsError::LocatorSearchMismatch);
    }
    proof {
        lemma_chien_props(sigma@, n as int, n as int);
    }
    let magnitudes = forney(&syndromes, &sigma, &positions, n);
    let mut corrected: Vec<u8> = Vec::new();
    let mut z: usize = 0;
    while z < n
        invariant
            z <= n,
            n == codeword@.len(),
            corrected@ == codeword@.take(z as int),
        decreases n - z,
    {
        corrected.push(codeword[z]);
        proof {
            assert(corrected@ =~= codeword@.take(z + 1));
        }
        z += 1;
    }
    proof {
        assert(corrected@ =~= codeword@);
    }
    let mut s: usize = 0;
    while s < positions.len()
        invariant
            s <= positions@.len(),
            positions@.len() == magnitudes@.len(),
            n == codeword@.len(),
            corrected@.len() == n,
            forall|i: int|
                0 <= i < positions@.len() ==> (#[trigger] positions@[i]) < n,
            corrected@ == apply_corrections(codeword@, positions@, magnitudes@, s as int),
        decreases positions@.len() - s,
    {
        let pos = positions[s];
        let cur = corrected[pos];
        corrected[pos] = cur ^ magnitudes[s];
        s += 1;
    }
    let check = calc_syndromes(&corrected, nsym);
    if !syndromes_zero(&check) {
        return Err(RsError::VerificationFailed);
    }
    let mut msg: Vec<u8> = Vec::new();
    let mut z2: usize = 0;
    while z2 < k
        invariant
            z2 <= k,
            k <= corrected@.len(),
            msg@ == corrected@.take(z2 as int),
        decreases k - z2,
    {
        msg.push(corrected[z2]);
        proof {
            assert(msg@ =~= corrected@.take(z2 + 1));
        }
        z2 += 1;
    }
    Ok((msg, positions))
}

} // verus!
