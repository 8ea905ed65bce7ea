//! Fixed-width decimal fields of the claim wire format: printing, parsing,
//! and the round-trip argument connecting the two.

use vstd::prelude::*;

verus! {

/// `10^w`.
pub open spec fn pow10(w: nat) -> nat
    decreases w,
{
    if w == 0 {
        1
    } else {
        10 * pow10((w - 1) as nat)
    }
}

/// The character printed for one decimal digit.
pub open spec fn digit_char(d: int) -> char {
    if d == 0 { '0' }
    else if d == 1 { '1' }
    else if d == 2 { '2' }
    else if d == 3 { '3' }
    else if d == 4 { '4' }
    else if d == 5 { '5' }
    else if d == 6 { '6' }
    else if d == 7 { '7' }
    else if d == 8 { '8' }
    else { '9' }
}

pub open spec fn is_digit(c: char) -> bool {
    48 <= c as int <= 57
}

pub open spec fn digit_val(c: char) -> int {
    c as int - 48
}

/// `n` printed as exactly `w` decimal digits, zero-padded, most significant
/// first.
pub open spec fn spec_fixed(n: int, w: nat) -> Seq<char>
    decreases w,
{
    if w == 0 {
        Seq::empty()
    } else {
        spec_fixed(n / 10, (w - 1) as nat).push(digit_char(n % 10))
    }
}

pub open spec fn all_digits(s: Seq<char>) -> bool {
    forall|i: int| 0 <= i < s.len() ==> is_digit(s[i])
}

/// The number denoted by a sequence of digit characters.
pub open spec fn dec_val(s: Seq<char>) -> int
    decreases s.len(),
{
    if s.len() == 0 {
        0
    } else {
        dec_val(s.drop_last()) * 10 + digit_val(s.last())
    }
}

/// Reading `w` digits of `s` starting at `i`: the value and the index just
/// past the field, or nothing if the input runs short or holds a non-digit.
pub open spec fn spec_read_fixed(s: Seq<char>, i: int, w: int) -> Option<(int, int)> {
    if 0 <= i && 0 <= w && i + w <= s.len() && all_digits(s.subrange(i, i + w)) {
        Some((dec_val(s.subrange(i, i + w)), i + w))
    } else {
        None
    }
}

/// Values of `pow10` the executable code needs.
pub proof fn lemma_pow10_vals()
    ensures
        pow10(3) == 1000,
        pow10(19) == 10000000000000000000,
        pow10(20) == 100000000000000000000,
        pow10(21) == 1000000000000000000000,
{
    reveal_with_fuel(pow10, 25);
}

/// The fixed-width print of `n` is `w` digits long, all digits, and denotes
/// `n` again.
pub proof fn lemma_fixed_props(n: int, w: nat)
    requires
        0 <= n < pow10(w),
    ensures
        spec_fixed(n, w).len() == w,
        all_digits(spec_fixed(n, w)),
        dec_val(spec_fixed(n, w)) == n,
    decreases w,
{
    if w == 0 {
        assert(spec_fixed(n, w) =~= Seq::<char>::empty());
    } else {
        assert(pow10(w) == 10 * pow10((w - 1) as nat));
        assert(n / 10 < pow10((w - 1) as nat)) by (nonlinear_arith)
            requires
                0 <= n,
                n < 10 * pow10((w - 1) as nat);
        lemma_fixed_props(n / 10, (w - 1) as nat);
        let base = spec_fixed(n / 10, (w - 1) as nat);
        let d = n % 10;
        let whole = spec_fixed(n, w);
        assert(whole == base.push(digit_char(d)));
        assert(whole.drop_last() =~= base);
        assert(whole.last() == digit_char(d));
        assert(0 <= d < 10);
        assert(digit_val(digit_char(d)) == d);
        assert(is_digit(digit_char(d)));
        assert(all_digits(whole)) by {
            assert(forall|i: int| 0 <= i < base.len() ==> whole[i] == base[i]);
        }
        assert(dec_val(whole) == dec_val(base) * 10 + d);
        assert(dec_val(base) * 10 + d == n);
    }
}

/// One digit as a one-character string slice.
pub fn digit_str(d: u8) -> (r: &'static str)
    requires
        d < 10,
    ensures
        r@ =~= seq![digit_char(d as int)],
{
    proof {
        reveal_strlit("0");
        reveal_strlit("1");
        reveal_strlit("2");
        reveal_strlit("3");
        reveal_strlit("4");
        reveal_strlit("5");
        reveal_strlit("6");
        reveal_strlit("7");
        reveal_strlit("8");
        reveal_strlit("9");
    }
    match d {
        0 => "0",
        1 => "1",
        2 => "2",
        3 => "3",
        4 => "4",
        5 => "5",
        6 => "6",
        7 => "7",
        8 => "8",
        _ => "9",
    }
}

/// Append the `w`-digit zero-padded decimal print of `n` to `out`.
pub fn push_fixed(out: &mut String, n: u128, w: usize)
    requires
        (n as int) < pow10(w as nat),
    ensures
        final(out)@ == old(out)@ + spec_fixed(n as int, w as nat),
    decreases w,
{
    if w == 0 {
        assert(out@ =~= old(out)@ + spec_fixed(n as int, 0));
    } else {
        proof {
            assert(pow10(w as nat) == 10 * pow10((w - 1) as nat));
            assert(((n / 10) as int) < pow10((w - 1) as nat)) by (nonlinear_arith)
                requires
                    (n as int) < 10 * pow10((w - 1) as nat);
        }
        let ghost prefix = out@;
        push_fixed(out, n / 10, w - 1);
        let d: u8 = (n % 10) as u8;
        let s = digit_str(d);
        out.append(s);
        proof {
            assert(out@ =~= prefix + spec_fixed(n as int, w as nat));
        }
    }
}

/// Read a `w`-digit decimal field of `s` at character index `i`.
pub fn read_fixed(s: &str, i: usize, w: usize) -> (r: Option<(u128, usize)>)
    requires
        w <= 20,
    ensures
        match r {
            None => spec_read_fixed(s@, i as int, w as int) is None,
            Some((n, j)) => spec_read_fixed(s@, i as int, w as int) == Some((n as int, j as int)),
        },
{
    let len = s.unicode_len();
    if w > len || i > len - w {
        return None;
    }
    proof {
        lemma_pow10_vals();
    }
    let mut acc: u128 = 0;
    let mut k: usize = 0;
    while k < w
        invariant
            k <= w,
            w <= 20,
            i + w <= s@.len() <= usize::MAX,
            acc as int == dec_val(s@.subrange(i as int, i as int + k as int)),
            (acc as int) < pow10(k as nat),
            pow10(21) == 1000000000000000000000,
            forall|t: int| i <= t < i + k ==> is_digit(s@[t]),
        decreases w - k,
    {
        let c = s.get_char(i + k);
        let code: u32 = c as u32;
        if code < 48 || code > 57 {
            proof {
                let sub = s@.subrange(i as int, i as int + w as int);
                assert(sub[k as int] == s@[i + k]);
                assert(!is_digit(sub[k as int]));
            }
            return None;
        }
        let d: u128 = (code - 48) as u128;
        proof {
            let prev = s@.subrange(i as int, i as int + k as int);
            let next = s@.subrange(i as int, i as int + k as int + 1);
            assert(next.drop_last() =~= prev);
            assert(next.last() == s@[i + k]);
            assert(digit_val(s@[i + k]) == d as int);
            assert(pow10((k + 1) as nat) == 10 * pow10(k as nat));
            assert(pow10(k as nat) <= pow10(20)) by {
                lemma_pow10_mono(k as nat, 20);
            }
            assert(pow10(20) < pow10(21));
        }
        acc = acc * 10 + d;
        k = k + 1;
    }
    proof {
        let sub = s@.subrange(i as int, i as int + w as int);
        assert(all_digits(sub));
        assert(spec_read_fixed(s@, i as int, w as int) == Some((dec_val(sub), i as int + w as int)));
    }
    Some((acc, i + w))
}

/// `pow10` grows with its exponent.
pub proof fn lemma_pow10_mono(a: nat, b: nat)
    requires
        a <= b,
    ensures
        pow10(a) <= pow10(b),
    decreases b,
{
    if a < b {
        lemma_pow10_mono(a, (b - 1) as nat);
        assert(pow10(b) == 10 * pow10((b - 1) as nat));
    }
}

} // verus!
