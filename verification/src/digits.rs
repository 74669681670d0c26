//! Decimal numerals: the canonical digit string of a number, its value, and
//! verified printing and parsing of `u64` components of a version string.

use vstd::prelude::*;

verus! {

/// A decimal digit character.
pub open spec fn is_digit(c: char) -> bool {
    '0' <= c && c <= '9'
}

/// The numeric value of a digit character.
pub open spec fn digit_val(c: char) -> int {
    c as int - '0' as int
}

/// The digit character for a value below ten.
pub open spec fn digit_char(d: int) -> char {
    if d == 0 {
        '0'
    } else if d == 1 {
        '1'
    } else if d == 2 {
        '2'
    } else if d == 3 {
        '3'
    } else if d == 4 {
        '4'
    } else if d == 5 {
        '5'
    } else if d == 6 {
        '6'
    } else if d == 7 {
        '7'
    } else if d == 8 {
        '8'
    } else {
        '9'
    }
}

/// Every character of the sequence is a decimal digit.
pub open spec fn all_digits(s: Seq<char>) -> bool {
    forall|i: int| 0 <= i < s.len() ==> is_digit(#[trigger] s[i])
}

/// The value of a digit string, most significant digit first.
pub open spec fn digits_val(s: Seq<char>) -> int
    decreases s.len(),
{
    if s.len() == 0 {
        0
    } else {
        digits_val(s.drop_last()) * 10 + digit_val(s.last())
    }
}

/// A canonical numeral: nonempty, all digits, no leading zero.
pub open spec fn canon_digits(s: Seq<char>) -> bool {
    s.len() > 0 && all_digits(s) && (s[0] == '0' ==> s.len() == 1)
}

/// The canonical digit string of a nonnegative number.
pub open spec fn dec_repr(n: int) -> Seq<char>
    decreases n,
{
    if n < 10 {
        seq![digit_char(n)]
    } else {
        dec_repr(n / 10).push(digit_char(n % 10))
    }
}

pub proof fn lemma_dec_repr_canon(n: int)
    requires
        n >= 0,
    ensures
        canon_digits(dec_repr(n)),
        digits_val(dec_repr(n)) == n,
    decreases n,
{
    if n < 10 {
        reveal_with_fuel(digits_val, 2);
        let s = seq![digit_char(n)];
        assert(dec_repr(n) =~= s);
        assert(s.drop_last() =~= Seq::<char>::empty());
        assert(s.last() == digit_char(n));
        assert(digits_val(s) == digit_val(digit_char(n)));
        assert(s[0] == digit_char(n));
        assert(is_digit(s[0]));
        assert(forall|i: int| 0 <= i < s.len() ==> #[trigger] s[i] == s[0]);
        assert(canon_digits(s));
    } else {
        lemma_dec_repr_canon(n / 10);
        let p = dec_repr(n / 10);
        let s = dec_repr(n);
        assert(s == p.push(digit_char(n % 10)));
        assert(s.drop_last() =~= p);
        assert(s.last() == digit_char(n % 10));
        assert(0 <= n % 10 < 10);
        assert(digit_val(digit_char(n % 10)) == n % 10);
        assert(digits_val(s) == (n / 10) * 10 + n % 10);
        assert((n / 10) * 10 + n % 10 == n) by {
            vstd::arithmetic::div_mod::lemma_fundamental_div_mod(n, 10);
        }
        assert(n / 10 >= 1) by {
            vstd::arithmetic::div_mod::lemma_div_non_zero(n, 10);
        }
        assert(p.len() > 0);
        assert(s[0] == p[0]);
        assert(s[0] != '0') by {
            reveal_with_fuel(digits_val, 2);
            if p[0] == '0' {
                assert(p.len() == 1);
                assert(p.drop_last() =~= Seq::<char>::empty());
                assert(p.last() == p[0]);
                assert(digits_val(p) == digit_val('0'));
            }
        }
        assert(forall|i: int| 0 <= i < s.len() ==> is_digit(#[trigger] s[i]));
    }
}

pub proof fn lemma_canon_digits_repr(s: Seq<char>)
    requires
        canon_digits(s),
    ensures
        dec_repr(digits_val(s)) == s,
        digits_val(s) >= 0,
        s.len() > 1 ==> digits_val(s) >= 10,
    decreases s.len(),
{
    if s.len() == 1 {
        assert(is_digit(s[0]));
        assert(digits_val(s) == digits_val(s.drop_last()) * 10 + digit_val(s.last()));
        assert(s.drop_last().len() == 0);
        assert(digits_val(s) == digit_val(s[0]));
        assert(0 <= digits_val(s) < 10);
        assert(digit_char(digit_val(s[0])) == s[0]);
        assert(dec_repr(digits_val(s)) =~= s);
    } else {
        let p = s.drop_last();
        assert(p[0] == s[0]);
        assert(forall|i: int| 0 <= i < p.len() ==> is_digit(#[trigger] p[i]));
        lemma_canon_digits_repr(p);
        let v = digits_val(s);
        let pv = digits_val(p);
        let d = digit_val(s.last());
        assert(v == pv * 10 + d);
        assert(0 <= d < 10);
        assert(pv >= 1) by {
            if p.len() == 1 {
                reveal_with_fuel(digits_val, 2);
                assert(p[0] != '0');
                assert(p.drop_last() =~= Seq::<char>::empty());
                assert(p.last() == p[0]);
                assert(digits_val(p) == digit_val(p[0]));
            }
        }
        assert(v / 10 == pv && v % 10 == d) by {
            vstd::arithmetic::div_mod::lemma_fundamental_div_mod_converse(v, 10, pv, d);
        }
        assert(v >= 10) by (nonlinear_arith)
            requires
                pv >= 1,
                d >= 0,
                v == pv * 10 + d,
        ;
        assert(dec_repr(v) == dec_repr(pv).push(digit_char(d)));
        assert(digit_char(digit_val(s.last())) == s.last());
        assert(dec_repr(v) =~= s);
    }
}

/// Decomposing a digit string at an index: the value of the whole equals the
/// value of the prefix scaled by a power of ten plus the value of the suffix.
pub proof fn lemma_digits_val_split(s: Seq<char>, i: int)
    requires
        0 <= i <= s.len(),
    ensures
        digits_val(s) == digits_val(s.take(i)) * vstd::arithmetic::power::pow(10, (s.len() - i) as nat) + digits_val(s.skip(i)),
    decreases s.len() - i,
{
    vstd::arithmetic::power::lemma_pow_positive(10, (s.len() - i) as nat);
    if i == s.len() {
        assert(s.take(i) =~= s);
        assert(s.skip(i) =~= Seq::<char>::empty());
        assert(vstd::arithmetic::power::pow(10, 0) == 1) by {
            vstd::arithmetic::power::lemma_pow0(10);
        }
    } else {
        lemma_digits_val_split(s.drop_last(), i);
        let p = s.drop_last();
        assert(p.take(i) =~= s.take(i));
        assert(p.skip(i) =~= s.skip(i).drop_last());
        assert(s.skip(i).last() == s.last());
        let k = (s.len() - i - 1) as nat;
        let pw = vstd::arithmetic::power::pow(10, k);
        vstd::arithmetic::power::lemma_pow_positive(10, k);
        assert(vstd::arithmetic::power::pow(10, (k + 1) as nat) == 10 * pw) by {
            vstd::arithmetic::power::lemma_pow_adds(10, k, 1);
            vstd::arithmetic::power::lemma_pow1(10);
        }
        let a = digits_val(s.take(i));
        let b = digits_val(p.skip(i));
        assert(digits_val(p) == a * pw + b);
        assert(digits_val(s) == digits_val(p) * 10 + digit_val(s.last()));
        assert(digits_val(s.skip(i)) == b * 10 + digit_val(s.last()));
        assert((a * pw + b) * 10 == a * (10 * pw) + b * 10) by (nonlinear_arith);
    }
}

/// The value of a digit string is nonnegative.
pub proof fn lemma_digits_val_nonneg(s: Seq<char>)
    requires
        all_digits(s),
    ensures
        digits_val(s) >= 0,
    decreases s.len(),
{
    if s.len() > 0 {
        assert(forall|i: int| 0 <= i < s.drop_last().len() ==> is_digit(#[trigger] s.drop_last()[i]));
        lemma_digits_val_nonneg(s.drop_last());
        assert(is_digit(s.last()));
    }
}

/// Appends one digit character to a string.
pub(crate) fn push_digit(out: &mut String, d: u64)
    requires
        d < 10,
    ensures
        final(out)@ == old(out)@ + seq![digit_char(d as int)],
{
    proof {
        reveal_strlit("0");
        reveal_strlit("1");
        reveal_strlit("2");
        reveal_strlit("3");
        reveal_strlit("4");
        reveal_strlit("5");
        reveal_strlit("6");
        reveal_strlit("7");
        reveal_strlit("8");
        reveal_strlit("9");
    }
    if d == 0 {
        out.append("0");
    } else if d == 1 {
        out.append("1");
    } else if d == 2 {
        out.append("2");
    } else if d == 3 {
        out.append("3");
    } else if d == 4 {
        out.append("4");
    } else if d == 5 {
        out.append("5");
    } else if d == 6 {
        out.append("6");
    } else if d == 7 {
        out.append("7");
    } else if d == 8 {
        out.append("8");
    } else {
        out.append("9");
    }
    proof {
        assert(out@ =~= old(out)@ + seq![digit_char(d as int)]);
    }
}

/// Appends the canonical decimal numeral of `n`.
pub fn push_dec(out: &mut String, n: u64)
    ensures
        final(out)@ == old(out)@ + dec_repr(n as int),
    decreases n,
{
    if n < 10 {
        push_digit(out, n);
    } else {
        assert(n / 10 < n) by (nonlinear_arith)
            requires
                n >= 10,
        ;
        push_dec(out, n / 10);
        push_digit(out, n % 10);
        proof {
            assert(out@ =~= old(out)@ + dec_repr(n as int));
        }
    }
}

/// The canonical decimal string of a number.
pub fn dec_string(n: u64) -> (r: String)
    ensures
        r@ == dec_repr(n as int),
{
    let mut out = String::new();
    push_dec(&mut out, n);
    proof {
        assert(out@ =~= dec_repr(n as int));
    }
    out
}

} // verus!
