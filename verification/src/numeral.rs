//! Decimal numerals: rendering an unsigned integer as its decimal string,
//! and reading the whole-second part of a probed duration string.
//!
//! A duration string is one or more decimal digits, optionally followed by
//! a dot and further digits. Its value in whole seconds is the value of the
//! digits before the dot (the fraction is discarded), saturated at
//! `u64::MAX`.

use vstd::prelude::*;

verus! {

pub open spec fn is_digit_char(c: char) -> bool {
    48 <= c as int <= 57
}

pub open spec fn digit_val(c: char) -> nat {
    (c as int - 48) as nat
}

pub open spec fn digit_char(d: nat) -> char {
    if d == 0 { '0' }
    else if d == 1 { '1' }
    else if d == 2 { '2' }
    else if d == 3 { '3' }
    else if d == 4 { '4' }
    else if d == 5 { '5' }
    else if d == 6 { '6' }
    else if d == 7 { '7' }
    else if d == 8 { '8' }
    else { '9' }
}

/// The decimal numeral of `n`, most significant digit first, no leading
/// zeros (except for `n == 0`, which is the single digit `0`).
pub open spec fn dec_str(n: nat) -> Seq<char>
    decreases n,
{
    if n < 10 {
        seq![digit_char(n)]
    } else {
        dec_str(n / 10).push(digit_char(n % 10))
    }
}

/// The value of a digit sequence read in base ten.
pub open spec fn digits_val(s: Seq<char>) -> nat
    decreases s.len(),
{
    if s.len() == 0 {
        0
    } else {
        digits_val(s.drop_last()) * 10 + digit_val(s.last())
    }
}

pub open spec fn all_digits(s: Seq<char>) -> bool {
    forall|i: int| 0 <= i < s.len() ==> is_digit_char(#[trigger] s[i])
}

/// Index of the first dot in `s`, or `s.len()` if there is none.
pub open spec fn dot_pos(s: Seq<char>) -> int
    decreases s.len(),
{
    if s.len() == 0 {
        0
    } else if s[0] == '.' {
        0
    } else {
        1 + dot_pos(s.skip(1))
    }
}

/// Whether `s` is a well-formed duration string: at least one digit before
/// an optional dot, and only digits after it.
pub open spec fn is_duration_str(s: Seq<char>) -> bool {
    let k = dot_pos(s);
    &&& 0 < k
    &&& all_digits(s.take(k))
    &&& (k == s.len() || all_digits(s.skip(k + 1)))
}

/// The whole-second value of a duration string: the value of the digits
/// before the dot.
pub open spec fn duration_secs(s: Seq<char>) -> nat {
    digits_val(s.take(dot_pos(s)))
}

/// `duration_secs` saturated at `u64::MAX`.
pub open spec fn duration_secs_u64(s: Seq<char>) -> u64 {
    if duration_secs(s) > u64::MAX {
        u64::MAX
    } else {
        duration_secs(s) as u64
    }
}

/// Law: the decimal numeral of `n` reads back as `n`; rendering loses
/// nothing and fabricates nothing.
pub proof fn lemma_dec_str_value(n: nat)
    ensures
        all_digits(dec_str(n)),
        digits_val(dec_str(n)) == n,
    decreases n,
{
    if n < 10 {
        assert(dec_str(n).drop_last() =~= Seq::<char>::empty());
        assert(digit_val(digit_char(n)) == n);
        assert(dec_str(n).last() == digit_char(n));
        assert(digits_val(dec_str(n)) == digits_val(Seq::<char>::empty()) * 10 + digit_val(
            digit_char(n),
        ));
    } else {
        lemma_dec_str_value(n / 10);
        assert(dec_str(n).drop_last() =~= dec_str(n / 10));
        assert(digit_val(digit_char(n % 10)) == n % 10);
        assert(dec_str(n).last() == digit_char(n % 10));
        assert(digits_val(dec_str(n)) == digits_val(dec_str(n / 10)) * 10 + digit_val(
            digit_char(n % 10),
        ));
        assert((n / 10) * 10 + n % 10 == n) by {
            vstd::arithmetic::div_mod::lemma_fundamental_div_mod(n as int, 10);
        }
        assert forall|i: int| 0 <= i < dec_str(n).len() implies is_digit_char(
            #[trigger] dec_str(n)[i],
        ) by {
            if i < dec_str(n / 10).len() {
                assert(dec_str(n)[i] == dec_str(n / 10)[i]);
            }
        }
    }
}

pub open spec fn pow10(k: nat) -> nat
    decreases k,
{
    if k == 0 {
        1
    } else {
        10 * pow10((k - 1) as nat)
    }
}

proof fn lemma_pow10_pos(k: nat)
    ensures
        pow10(k) >= 1,
    decreases k,
{
    if k > 0 {
        lemma_pow10_pos((k - 1) as nat);
    }
}

proof fn lemma_dec_str_len(n: nat, k: nat)
    requires
        1 <= k,
        n < pow10(k),
    ensures
        dec_str(n).len() <= k,
    decreases k,
{
    if n < 10 {
    } else {
        let p = pow10((k - 1) as nat);
        lemma_pow10_pos((k - 1) as nat);
        assert(n / 10 < p) by (nonlinear_arith)
            requires
                n < 10 * p,
                p >= 1,
                n >= 10,
        ;
        lemma_dec_str_len(n / 10, (k - 1) as nat);
    }
}

/// A numeral of a value that fits `u64` has at most twenty digits.
pub proof fn lemma_dec_str_len_u64(n: nat)
    requires
        n <= u64::MAX,
    ensures
        dec_str(n).len() <= 20,
{
    reveal_with_fuel(pow10, 21);
    assert(pow10(20) == 100000000000000000000);
    lemma_dec_str_len(n, 20);
}

proof fn lemma_dot_pos_characterization(s: Seq<char>, k: int)
    requires
        0 <= k <= s.len(),
        forall|j: int| 0 <= j < k ==> s[j] != '.',
        k < s.len() ==> s[k] == '.',
    ensures
        dot_pos(s) == k,
    decreases s.len(),
{
    if s.len() == 0 {
    } else if s[0] == '.' {
        assert(k == 0);
    } else {
        assert(s[0] != '.');
        assert(k >= 1);
        let t = s.skip(1);
        assert forall|j: int| 0 <= j < k - 1 implies t[j] != '.' by {
            assert(t[j] == s[j + 1]);
        }
        if k - 1 < t.len() {
            assert(t[k - 1] == s[k]);
        }
        lemma_dot_pos_characterization(t, k - 1);
    }
}

fn digit_str(d: u64) -> (r: &'static str)
    requires
        d < 10,
    ensures
        r@ == seq![digit_char(d as nat)],
{
    let r: &'static str = if d == 0 { "0" }
    else if d == 1 { "1" }
    else if d == 2 { "2" }
    else if d == 3 { "3" }
    else if d == 4 { "4" }
    else if d == 5 { "5" }
    else if d == 6 { "6" }
    else if d == 7 { "7" }
    else if d == 8 { "8" }
    else { "9" };
    proof {
        reveal_strlit("0");
        reveal_strlit("1");
        reveal_strlit("2");
        reveal_strlit("3");
        reveal_strlit("4");
        reveal_strlit("5");
        reveal_strlit("6");
        reveal_strlit("7");
        reveal_strlit("8");
        reveal_strlit("9");
        assert(r@ =~= seq![digit_char(d as nat)]);
    }
    r
}

/// Render `n` as its decimal numeral.
pub fn u64_to_string(n: u64) -> (r: String)
    ensures
        r@ == dec_str(n as nat),
    decreases n,
{
    if n < 10 {
        String::from_str(digit_str(n))
    } else {
        let mut s = u64_to_string(n / 10);
        s.append(digit_str(n % 10));
        proof {
            assert(s@ =~= dec_str(n as nat));
        }
        s
    }
}

/// Read the whole-second part of a duration string. Returns `None` exactly
/// when `s` is not a well-formed duration string; otherwise the value of
/// the digits before the dot, saturated at `u64::MAX`.
pub fn parse_duration_secs(s: &str) -> (r: Option<u64>)
    ensures
        r is Some <==> is_duration_str(s@),
        r is Some ==> r->0 == duration_secs_u64(s@),
{
    let n = s.unicode_len();

    // Find the first dot.
    let mut k: usize = 0;
    while k < n && s.get_char(k) != '.'
        invariant
            0 <= k <= n,
            n == s@.len(),
            forall|j: int| 0 <= j < k ==> s@[j] != '.',
        decreases n - k,
    {
        k += 1;
    }
    proof {
        lemma_dot_pos_characterization(s@, k as int);
    }

    if k == 0 {
        return None;
    }

    // The digits before the dot carry the value.
    let mut acc: u64 = 0;
    let mut sat = false;
    let mut i: usize = 0;
    while i < k
        invariant
            0 <= i <= k <= n,
            0 < k,
            n == s@.len(),
            dot_pos(s@) == k as int,
            all_digits(s@.take(i as int)),
            !sat ==> acc == digits_val(s@.take(i as int)),
            sat ==> digits_val(s@.take(i as int)) > u64::MAX && acc == u64::MAX,
        decreases k - i,
    {
        let c = s.get_char(i);
        let cu = c as u32;
        if cu < 48 || cu > 57 {
            proof {
                assert(!is_digit_char(s@[i as int]));
                assert(s@.take(k as int)[i as int] == s@[i as int]);
                assert(!all_digits(s@.take(k as int)));
            }
            return None;
        }
        let d: u64 = (cu - 48) as u64;
        proof {
            assert(s@.take(i + 1).drop_last() =~= s@.take(i as int));
            assert(s@.take(i + 1).last() == s@[i as int]);
        }
        if sat {
            proof {
                let v = digits_val(s@.take(i as int));
                assert(v * 10 + digit_val(s@[i as int]) > u64::MAX) by (nonlinear_arith)
                    requires v > u64::MAX;
            }
        } else if acc <= (u64::MAX - d) / 10 {
            proof {
                assert(acc * 10 + d <= u64::MAX) by (nonlinear_arith)
                    requires acc <= (u64::MAX - d) / 10, d <= 9;
            }
            acc = acc * 10 + d;
        } else {
            proof {
                assert(acc * 10 + d > u64::MAX) by (nonlinear_arith)
                    requires acc > (u64::MAX - d) / 10, d <= 9;
            }
            acc = u64::MAX;
            sat = true;
        }
        i += 1;
    }
    proof {
        assert(s@.take(k as int) =~= s@.take(k as int));
    }

    // Everything after the dot must be a digit.
    if k < n {
        let mut j: usize = k + 1;
        while j < n
            invariant
                k + 1 <= j <= n,
                0 < k < n,
                n == s@.len(),
                dot_pos(s@) == k as int,
                forall|t: int| k + 1 <= t < j ==> is_digit_char(#[trigger] s@[t]),
            decreases n - j,
        {
            let c = s.get_char(j);
            let cu = c as u32;
            if cu < 48 || cu > 57 {
                proof {
                    assert(!is_digit_char(s@[j as int]));
                    assert(s@.skip(k + 1)[j - k - 1] == s@[j as int]);
                    assert(!all_digits(s@.skip(k + 1)));
                }
                return None;
            }
            j += 1;
        }
        proof {
            assert forall|t: int| 0 <= t < s@.skip(k + 1).len()
                implies is_digit_char(#[trigger] s@.skip(k + 1)[t]) by {
                assert(s@.skip(k + 1)[t] == s@[t + k + 1]);
            }
        }
    }

    Some(acc)
}

} // verus!
