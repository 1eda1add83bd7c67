//! Formatting of byte counts and bounded history buffers.
use vstd::prelude::*;

use std::collections::VecDeque;

use crate::text::{dec, push_dec, string_from_chars};

verus! {

broadcast use vstd::string::group_string_axioms;

pub open spec fn pow1024(k: nat) -> nat
    decreases k,
{
    if k == 0 {
        1
    } else {
        1024 * pow1024((k - 1) as nat)
    }
}

pub open spec fn two_pow(k: nat) -> nat
    decreases k,
{
    if k == 0 {
        1
    } else {
        2 * two_pow((k - 1) as nat)
    }
}

/// The number of binary digits of `n`.
pub open spec fn bit_len(n: nat) -> nat
    decreases n,
{
    if n == 0 {
        0
    } else {
        1 + bit_len(n / 2)
    }
}

/// `n` as an `f64`: the nearest number with 53 significant bits, ties going
/// to the even one.
pub open spec fn as_f64(n: nat) -> nat {
    let b = bit_len(n);
    if b <= 53 {
        n
    } else {
        let s = (b - 53) as nat;
        let m = n / two_pow(s);
        let r = n % two_pow(s);
        let h = two_pow((s - 1) as nat);
        let m2 = if r > h || (r == h && m % 2 == 1) { m + 1 } else { m };
        m2 * two_pow(s)
    }
}

/// `num / den` rounded to the nearest integer, ties going to the even one.
pub open spec fn round_half_even(num: nat, den: nat) -> nat {
    let q = num / den;
    let r = num % den;
    if 2 * r > den || (2 * r == den && q % 2 == 1) {
        q + 1
    } else {
        q
    }
}

/// The unit a byte count is shown in: the largest power of 1024 not above
/// it, up to TiB.
pub open spec fn unit_index(b: nat) -> nat {
    if b < pow1024(1) {
        0
    } else if b < pow1024(2) {
        1
    } else if b < pow1024(3) {
        2
    } else if b < pow1024(4) {
        3
    } else {
        4
    }
}

pub open spec fn unit_name(k: nat) -> Seq<char> {
    if k == 0 {
        "B"@
    } else if k == 1 {
        "KiB"@
    } else if k == 2 {
        "MiB"@
    } else if k == 3 {
        "GiB"@
    } else {
        "TiB"@
    }
}

/// A byte count for humans: whole bytes below 1 KiB, otherwise the count
/// (as an `f64`) in its unit with one decimal, rounded half to even.
pub open spec fn format_bytes_spec(b: nat) -> Seq<char> {
    if b == 0 {
        "0 B"@
    } else if b < 1024 {
        dec(b) + " B"@
    } else {
        let k = unit_index(b);
        let t = round_half_even(as_f64(b) * 10, pow1024(k));
        dec(t / 10) + "."@ + dec(t % 10) + " "@ + unit_name(k)
    }
}

pub fn push_str_chars(out: &mut Vec<char>, s: &str)
    ensures
        final(out)@ == old(out)@ + s@,
{
    let v = crate::text::chars_of(s);
    let mut i: usize = 0;
    while i < v.len()
        invariant
            i <= v.len(),
            out@ == old(out)@ + v@.take(i as int),
        decreases v.len() - i,
    {
        out.push(v[i]);
        i += 1;
        assert(out@ =~= old(out)@ + v@.take(i as int));
    }
    assert(v@.take(v.len() as int) =~= s@);
}

proof fn lemma_two_pow_pos(k: nat)
    ensures
        two_pow(k) >= 1,
    decreases k,
{
    if k > 0 {
        lemma_two_pow_pos((k - 1) as nat);
    }
}

proof fn lemma_bit_len_bound(n: nat)
    ensures
        n < two_pow(bit_len(n)),
    decreases n,
{
    if n > 0 {
        lemma_bit_len_bound(n / 2);
    }
}

/// `n` rounded to an `f64` value, computed exactly.
fn to_f64_exact(n: u64) -> (r: u128)
    ensures
        r == as_f64(n as nat),
        r <= 0x1_0000_0000_0000_0800,
{
    let mut b: u32 = 0;
    let mut m: u64 = n;
    proof {
        lemma_bit_len_le64(n);
    }
    while m > 0
        invariant
            bit_len(n as nat) == b + bit_len(m as nat),
            bit_len(n as nat) <= 64,
            m <= n,
        decreases m,
    {
        m = m / 2;
        b = b + 1;
    }
    proof {
        lemma_bit_len_le64(n);
        lemma_bit_len_bound(n as nat);
    }
    if b <= 53 {
        return n as u128;
    }
    let s = b - 53;
    assert(two_pow(11) == 2048) by {
        reveal_with_fuel(two_pow, 12);
    }
    let mut p: u128 = 1;
    let mut i: u32 = 0;
    while i < s
        invariant
            i <= s <= 11,
            p == two_pow(i as nat),
            two_pow(11) == 2048,
        decreases s - i,
    {
        proof {
            lemma_two_pow_mono(i as nat + 1, 11);
        }
        p = p * 2;
        i = i + 1;
    }
    let nn = n as u128;
    proof {
        lemma_two_pow_pos(s as nat);
    }
    let q = nn / p;
    let rem = nn % p;
    let h = p / 2;
    assert(h == two_pow((s - 1) as nat));
    let q2 = if rem > h || (rem == h && q % 2 == 1) { q + 1 } else { q };
    proof {
        lemma_two_pow_pos(s as nat);
        assert(q * p <= nn) by (nonlinear_arith)
            requires
                q == nn / p,
                p >= 1,
        ;
        assert(q2 * p <= nn + p) by (nonlinear_arith)
            requires
                q2 <= q + 1,
                q * p <= nn,
        ;
        lemma_two_pow_mono(s as nat, 11);
    }
    q2 * p
}

proof fn lemma_two_pow_mono(a: nat, b: nat)
    requires
        a <= b,
    ensures
        two_pow(a) <= two_pow(b),
    decreases b,
{
    if a < b {
        lemma_two_pow_mono(a, (b - 1) as nat);
    }
}

proof fn lemma_bit_len_le64(n: u64)
    ensures
        bit_len(n as nat) <= 64,
{
    assert(two_pow(64) == 0x1_0000_0000_0000_0000nat) by {
        reveal_with_fuel(two_pow, 65);
    }
    lemma_bit_len_small(n as nat, 64);
}

proof fn lemma_bit_len_small(n: nat, k: nat)
    requires
        n < two_pow(k),
    ensures
        bit_len(n) <= k,
    decreases k,
{
    if k > 0 && n > 0 {
        lemma_bit_len_small(n / 2, (k - 1) as nat);
    } else if n > 0 {
        assert(two_pow(0) == 1);
    }
}

/// Formats a byte count for humans: `"0 B"`, whole bytes below 1 KiB,
/// otherwise one decimal in KiB, MiB, GiB or TiB.
pub fn format_bytes(bytes: u64) -> (r: String)
    ensures
        r@ == format_bytes_spec(bytes as nat),
{
    let mut out: Vec<char> = Vec::new();
    if bytes == 0 {
        push_str_chars(&mut out, "0 B");
        return string_from_chars(&out);
    }
    if bytes < 1024 {
        push_dec(&mut out, bytes);
        push_str_chars(&mut out, " B");
        return string_from_chars(&out);
    }
    let (k, div, unit): (u32, u128, &str) = if bytes < 0x10_0000 {
        (1, 0x400, "KiB")
    } else if bytes < 0x4000_0000 {
        (2, 0x10_0000, "MiB")
    } else if bytes < 0x100_0000_0000 {
        (3, 0x4000_0000, "GiB")
    } else {
        (4, 0x100_0000_0000, "TiB")
    };
    assert(pow1024(1) == 0x400 && pow1024(2) == 0x10_0000 && pow1024(3) == 0x4000_0000 && pow1024(4)
        == 0x100_0000_0000) by {
        reveal_with_fuel(pow1024, 5);
    }
    assert(k == unit_index(bytes as nat));
    assert(div == pow1024(k as nat));
    assert(unit@ == unit_name(k as nat));
    let v = to_f64_exact(bytes);
    let num = v * 10;
    let q = num / div;
    let rem = num % div;
    let t = if 2 * rem > div || (2 * rem == div && q % 2 == 1) { q + 1 } else { q };
    assert(t == round_half_even(as_f64(bytes as nat) * 10, pow1024(k as nat)));
    assert(t <= 0x1_0000_0000_0000_0800 * 10 + 1) by (nonlinear_arith)
        requires
            q == num / div,
            div >= 0x400,
            num <= 0x1_0000_0000_0000_0800 * 10,
            t <= q + 1,
    ;
    assert(t / 10 <= 0xffff_ffff_ffff_ffff) by (nonlinear_arith)
        requires
            q == num / div,
            div >= 0x400,
            num <= 0x1_0000_0000_0000_0800 * 10,
            t <= q + 1,
    ;
    let whole = t / 10;
    let tenth = t % 10;
    assert(whole <= 0xffff_ffff_ffff_ffff);
    push_dec(&mut out, whole as u64);
    push_str_chars(&mut out, ".");
    push_dec(&mut out, tenth as u64);
    push_str_chars(&mut out, " ");
    push_str_chars(&mut out, unit);
    assert(out@ =~= format_bytes_spec(bytes as nat));
    string_from_chars(&out)
}

/// Appends `val`, then drops the oldest values beyond `cap`; a zero cap keeps
/// the buffer as it is.
pub fn push_capped(buf: &mut VecDeque<u64>, val: u64, cap: usize)
    ensures
        cap == 0 ==> final(buf)@ == old(buf)@,
        cap > 0 ==> final(buf)@ == (if old(buf)@.len() + 1 > cap {
            old(buf)@.push(val).subrange(old(buf)@.len() + 1 - cap, old(buf)@.len() + 1 as int)
        } else {
            old(buf)@.push(val)
        }),
{
    if cap == 0 {
        return;
    }
    let ghost full = buf@.push(val);
    buf.push_back(val);
    while buf.len() > cap
        invariant
            cap > 0,
            buf@.len() >= cap || buf@.len() == full.len(),
            buf@.len() <= full.len(),
            buf@ == full.subrange(full.len() - buf@.len(), full.len() as int),
        decreases buf@.len(),
    {
        buf.pop_front();
        assert(buf@ =~= full.subrange(full.len() - buf@.len(), full.len() as int));
    }
    proof {
        if full.len() <= cap as nat {
            assert(buf@ =~= full);
        }
    }
}

} // verus!
