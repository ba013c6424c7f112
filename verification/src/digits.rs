//! Verified decimal formatting and parsing of `u64` values, with the
//! canonicity facts the token cache round trip rests on.

use vstd::prelude::*;
use vstd::arithmetic::div_mod::{
    lemma_div_is_strictly_smaller, lemma_fundamental_div_mod, lemma_fundamental_div_mod_converse,
};
use vstd::utf8::char_u32_cast;

verus! {

/// `c` is one of `'0'..='9'`.
pub open spec fn is_digit_char(c: char) -> bool {
    48 <= c as u32 && c as u32 <= 57
}

/// Numeric value of a digit character.
pub open spec fn digit_val(c: char) -> nat {
    if is_digit_char(c) {
        (c as u32 - 48) as nat
    } else {
        0
    }
}

/// Digit character of a value below ten.
pub open spec fn digit_char(d: nat) -> char {
    if d == 0 {
        '0'
    } else if d == 1 {
        '1'
    } else if d == 2 {
        '2'
    } else if d == 3 {
        '3'
    } else if d == 4 {
        '4'
    } else if d == 5 {
        '5'
    } else if d == 6 {
        '6'
    } else if d == 7 {
        '7'
    } else if d == 8 {
        '8'
    } else {
        '9'
    }
}

/// Canonical decimal digit sequence of `n` (no leading zeros; `0` is `"0"`).
pub open spec fn dec_digits(n: nat) -> Seq<char>
    decreases n,
{
    if n < 10 {
        seq![digit_char(n)]
    } else {
        dec_digits(n / 10).push(digit_char(n % 10))
    }
}

/// Numeric value of a digit sequence, most significant digit first.
pub open spec fn digits_value(s: Seq<char>) -> nat
    decreases s.len(),
{
    if s.len() == 0 {
        0
    } else {
        digits_value(s.drop_last()) * 10 + digit_val(s.last())
    }
}

/// Every character of `s` is a digit.
pub open spec fn all_digits(s: Seq<char>) -> bool {
    forall|i: int| 0 <= i < s.len() ==> is_digit_char(s[i])
}

/// `s` is the canonical decimal form of some number: nonempty, all digits,
/// no leading zero unless it is exactly `"0"`.
pub open spec fn canonical_digits(s: Seq<char>) -> bool {
    &&& all_digits(s)
    &&& s.len() >= 1
    &&& s.len() > 1 ==> s[0] != '0'
}

proof fn lemma_digit_char_val(d: nat)
    requires
        d < 10,
    ensures
        is_digit_char(digit_char(d)),
        digit_val(digit_char(d)) == d,
        digit_char(d) == '0' <==> d == 0,
{
}

/// `dec_digits(n)` is canonical and evaluates back to `n`; its leading
/// digit is `'0'` exactly for `n == 0`.
pub proof fn lemma_dec_digits_props(n: nat)
    ensures
        canonical_digits(dec_digits(n)),
        digits_value(dec_digits(n)) == n,
        dec_digits(n)[0] == '0' <==> n == 0,
    decreases n,
{
    if n < 10 {
        lemma_digit_char_val(n);
        let s = dec_digits(n);
        assert(s == seq![digit_char(n)]);
        assert(s.drop_last() =~= Seq::<char>::empty());
        assert(digits_value(Seq::<char>::empty()) == 0);
        assert(digits_value(s) == digit_val(digit_char(n)));
        assert(s[0] == digit_char(n));
    } else {
        lemma_div_is_strictly_smaller(n as int, 10);
        lemma_fundamental_div_mod(n as int, 10);
        assert(n / 10 >= 1);
        lemma_dec_digits_props(n / 10);
        lemma_digit_char_val(n % 10);
        let p = dec_digits(n / 10);
        let s = dec_digits(n);
        assert(s == p.push(digit_char(n % 10)));
        assert(s.drop_last() =~= p);
        assert(s.last() == digit_char(n % 10));
        assert(digits_value(s) == (n / 10) * 10 + n % 10);
        assert(all_digits(s)) by {
            assert(forall|i: int| 0 <= i < p.len() ==> s[i] == p[i]);
        }
        assert(s[0] == p[0]);
    }
}

/// A canonical digit sequence is the decimal form of its value: decimal
/// encoding is injective on canonical forms.
pub proof fn lemma_canonical_unique(s: Seq<char>)
    requires
        canonical_digits(s),
    ensures
        s == dec_digits(digits_value(s)),
    decreases s.len(),
{
    if s.len() == 1 {
        let c = s[0];
        assert(s.drop_last() =~= Seq::<char>::empty());
        assert(digits_value(Seq::<char>::empty()) == 0);
        assert(digits_value(s) == digit_val(c));
        assert(digit_val(c) < 10);
        lemma_digit_char_val(digit_val(c));
        assert(digit_char(digit_val(c)) as u32 == c as u32);
        char_u32_cast(c, c as u32);
        char_u32_cast(digit_char(digit_val(c)), digit_char(digit_val(c)) as u32);
        assert(digit_char(digit_val(c)) == c);
        assert(s =~= seq![digit_char(digits_value(s))]);
    } else {
        let p = s.drop_last();
        let c = s.last();
        assert(canonical_digits(p)) by {
            assert(forall|i: int| 0 <= i < p.len() ==> p[i] == s[i]);
        }
        lemma_canonical_unique(p);
        let pv = digits_value(p);
        let v = digits_value(s);
        assert(v == pv * 10 + digit_val(c));
        lemma_leading_nonzero_value(p);
        assert(pv >= 1);
        assert(v >= 10) by (nonlinear_arith)
            requires
                v == pv * 10 + digit_val(c),
                pv >= 1,
        ;
        lemma_fundamental_div_mod_converse(v as int, 10, pv as int, digit_val(c) as int);
        assert(v / 10 == pv);
        assert(v % 10 == digit_val(c));
        assert(is_digit_char(c));
        lemma_digit_char_val(digit_val(c));
        assert(digit_char(digit_val(c)) as u32 == c as u32);
        char_u32_cast(c, c as u32);
        char_u32_cast(digit_char(digit_val(c)), digit_char(digit_val(c)) as u32);
        assert(digit_char(digit_val(c)) == c);
        assert(dec_digits(v) == dec_digits(pv).push(digit_char(v % 10)));
        assert(s =~= p.push(c));
    }
}

/// A nonempty digit sequence with a nonzero leading digit has value at
/// least one.
proof fn lemma_leading_nonzero_value(s: Seq<char>)
    requires
        all_digits(s),
        s.len() >= 1,
        s[0] != '0',
    ensures
        digits_value(s) >= 1,
    decreases s.len(),
{
    if s.len() == 1 {
        assert(is_digit_char(s[0]));
        if s[0] as u32 == 48 {
            char_u32_cast(s[0], s[0] as u32);
            char_u32_cast('0', '0' as u32);
            assert(s[0] == '0');
        }
        assert(digit_val(s[0]) >= 1);
        assert(s.drop_last() =~= Seq::<char>::empty());
        assert(digits_value(Seq::<char>::empty()) == 0);
    } else {
        let p = s.drop_last();
        assert(p[0] == s[0]);
        assert(all_digits(p)) by {
            assert(forall|i: int| 0 <= i < p.len() ==> p[i] == s[i]);
        }
        lemma_leading_nonzero_value(p);
        assert(digits_value(s) == digits_value(p) * 10 + digit_val(s.last()));
        assert(digits_value(p) * 10 >= 10) by (nonlinear_arith)
            requires
                digits_value(p) >= 1,
        ;
    }
}

/// Taking a prefix of a digit sequence never increases its value.
pub proof fn lemma_digits_value_take_le(s: Seq<char>, i: int)
    requires
        all_digits(s),
        0 <= i <= s.len(),
    ensures
        digits_value(s.take(i)) <= digits_value(s),
    decreases s.len() - i,
{
    if i == s.len() {
        assert(s.take(i) =~= s);
    } else {
        lemma_digits_value_take_le(s, i + 1);
        assert(s.take(i + 1).drop_last() =~= s.take(i));
        assert(digits_value(s.take(i + 1)) == digits_value(s.take(i)) * 10 + digit_val(
            s.take(i + 1).last(),
        ));
        assert(digits_value(s.take(i)) * 10 >= digits_value(s.take(i))) by (nonlinear_arith);
    }
}

fn digit_str(d: u64) -> (r: &'static str)
    requires
        d < 10,
    ensures
        r@ == seq![digit_char(d as nat)],
{
    proof {
        reveal_strlit("0");
        reveal_strlit("1");
        reveal_strlit("2");
        reveal_strlit("3");
        reveal_strlit("4");
        reveal_strlit("5");
        reveal_strlit("6");
        reveal_strlit("7");
        reveal_strlit("8");
        reveal_strlit("9");
    }
    let r = match d {
        0 => "0",
        1 => "1",
        2 => "2",
        3 => "3",
        4 => "4",
        5 => "5",
        6 => "6",
        7 => "7",
        8 => "8",
        _ => "9",
    };
    assert(r@ =~= seq![digit_char(d as nat)]);
    r
}

/// Canonical decimal string of `n`.
pub fn u64_to_dec(n: u64) -> (r: String)
    ensures
        r@ == dec_digits(n as nat),
    decreases n,
{
    if n < 10 {
        String::from_str(digit_str(n))
    } else {
        proof {
            lemma_div_is_strictly_smaller(n as int, 10);
        }
        let mut s = u64_to_dec(n / 10);
        s.append(digit_str(n % 10));
        assert(s@ =~= dec_digits((n / 10) as nat).push(digit_char((n % 10) as nat)));
        s
    }
}

/// Parse a canonical decimal string back to a `u64`. Succeeds exactly on
/// the strings `dec_digits` produces for values that fit in a `u64`.
pub fn dec_to_u64(s: &str) -> (r: Option<u64>)
    ensures
        match r {
            Some(v) => s@ == dec_digits(v as nat),
            None => forall|v: u64| s@ != dec_digits(v as nat),
        },
{
    let n = s.unicode_len();
    if n == 0 {
        proof {
            assert forall|v: u64| s@ != dec_digits(v as nat) by {
                lemma_dec_digits_props(v as nat);
            }
        }
        return None;
    }
    if n > 1 && s.get_char(0) == '0' {
        proof {
            assert forall|v: u64| s@ != dec_digits(v as nat) by {
                lemma_dec_digits_props(v as nat);
                if s@ == dec_digits(v as nat) {
                    assert(dec_digits(v as nat)[0] == '0');
                    assert(v == 0);
                    assert(dec_digits(0) == seq![digit_char(0)]);
                }
            }
        }
        return None;
    }
    let mut acc: u64 = 0;
    let mut i: usize = 0;
    while i < n
        invariant
            i <= n,
            n == s@.len(),
            n >= 1,
            !(n > 1 && s@[0] == '0'),
            forall|j: int| 0 <= j < i ==> is_digit_char(s@[j]),
            acc as nat == digits_value(s@.take(i as int)),
        decreases n - i,
    {
        let c = s.get_char(i);
        let cv = c as u32;
        if cv < 48 || cv > 57 {
            proof {
                assert(!is_digit_char(s@[i as int]));
                assert forall|v: u64| s@ != dec_digits(v as nat) by {
                    lemma_dec_digits_props(v as nat);
                    if s@ == dec_digits(v as nat) {
                        assert(is_digit_char(s@[i as int]));
                    }
                }
            }
            return None;
        }
        let d = (cv - 48) as u64;
        proof {
            assert(is_digit_char(s@[i as int]));
            assert(digit_val(s@[i as int]) == d as nat);
            assert(s@.take(i as int + 1).drop_last() =~= s@.take(i as int));
            assert(s@.take(i as int + 1).last() == s@[i as int]);
            assert(digits_value(s@.take(i as int + 1)) == acc as nat * 10 + d as nat);
        }
        if acc > (u64::MAX - d) / 10 {
            proof {
                assert(acc as nat * 10 + d as nat > u64::MAX) by (nonlinear_arith)
                    requires
                        acc as nat > ((u64::MAX - d as u64) / 10) as nat,
                        acc as nat * 10 + d as nat == digits_value(s@.take(i as int + 1)),
                        d < 10,
                        ((u64::MAX - d as u64) / 10) as nat == (u64::MAX as nat - d as nat) / 10,
                ;
                assert forall|v: u64| s@ != dec_digits(v as nat) by {
                    lemma_dec_digits_props(v as nat);
                    if s@ == dec_digits(v as nat) {
                        assert(all_digits(s@));
                        lemma_digits_value_take_le(s@, i as int + 1);
                        assert(digits_value(s@) == v as nat);
                        assert(v as nat >= digits_value(s@.take(i as int + 1)));
                    }
                }
            }
            return None;
        }
        proof {
            assert(acc * 10 + d <= u64::MAX) by (nonlinear_arith)
                requires
                    acc as nat <= ((u64::MAX - d as u64) / 10) as nat,
                    d < 10,
                    ((u64::MAX - d as u64) / 10) as nat == (u64::MAX as nat - d as nat) / 10,
            ;
        }
        acc = acc * 10 + d;
        i += 1;
    }
    proof {
        assert(s@.take(n as int) =~= s@);
        assert(canonical_digits(s@));
        lemma_canonical_unique(s@);
    }
    Some(acc)
}

} // verus!
