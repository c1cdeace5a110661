//! Decimal and hexadecimal numerals: the spec-level representation of a
//! number as characters, executable converters proved against it, and the
//! value read back from a run of decimal digits.

use vstd::prelude::*;
use vstd::arithmetic::div_mod::lemma_fundamental_div_mod;
use vstd::string::StrSliceExecFns;
use vstd::string::StringExecFns;

verus! {

/// Character of one decimal digit.
pub open spec fn dec_digit_char(d: nat) -> char {
    if d == 0 {
        '0'
    } else if d == 1 {
        '1'
    } else if d == 2 {
        '2'
    } else if d == 3 {
        '3'
    } else if d == 4 {
        '4'
    } else if d == 5 {
        '5'
    } else if d == 6 {
        '6'
    } else if d == 7 {
        '7'
    } else if d == 8 {
        '8'
    } else {
        '9'
    }
}

pub open spec fn is_dec_digit(c: char) -> bool {
    48 <= c as int && c as int <= 57
}

pub open spec fn dec_digit_val(c: char) -> nat {
    (c as int - 48) as nat
}

/// Decimal numeral of `n`, most significant digit first, no leading zeros
/// (`0` itself is the single character `0`).
pub open spec fn dec_rep(n: nat) -> Seq<char>
    decreases n,
{
    if n < 10 {
        seq![dec_digit_char(n)]
    } else {
        dec_rep(n / 10).push(dec_digit_char(n % 10))
    }
}

/// Value of a run of decimal digits, most significant first.
pub open spec fn dec_val(s: Seq<char>) -> nat
    decreases s.len(),
{
    if s.len() == 0 {
        0
    } else {
        dec_val(s.drop_last()) * 10 + dec_digit_val(s.last())
    }
}

/// Length of the run of decimal digits that opens `s`.
pub open spec fn digits_end(s: Seq<char>) -> int
    decreases s.len(),
{
    if s.len() == 0 || !is_dec_digit(s[0]) {
        0
    } else {
        1 + digits_end(s.drop_first())
    }
}

/// A decimal numeral is never empty and holds decimal digits only.
pub proof fn lemma_dec_rep_digits(n: nat)
    ensures
        dec_rep(n).len() >= 1,
        forall|i: int| 0 <= i < dec_rep(n).len() ==> is_dec_digit(#[trigger] dec_rep(n)[i]),
    decreases n,
{
    if n >= 10 {
        lemma_dec_rep_digits(n / 10);
    }
}

/// Reading a decimal numeral back gives the number it was made from.
pub proof fn lemma_dec_rep_val(n: nat)
    ensures
        dec_val(dec_rep(n)) == n,
    decreases n,
{
    if n < 10 {
        assert(dec_rep(n) == seq![dec_digit_char(n)]);
        let s = seq![dec_digit_char(n)];
        assert(s.drop_last() =~= Seq::<char>::empty());
        assert(s.last() == dec_digit_char(n));
        assert(dec_digit_val(dec_digit_char(n)) == n);
        assert(dec_val(s) == dec_val(s.drop_last()) * 10 + dec_digit_val(s.last()));
        assert(dec_val(dec_rep(n)) == n);
    } else {
        lemma_dec_rep_val(n / 10);
        let p = dec_rep(n / 10);
        let c = dec_digit_char(n % 10);
        assert(p.push(c).drop_last() =~= p);
        assert(p.push(c).last() == c);
        assert(dec_digit_val(dec_digit_char(n % 10)) == n % 10);
        lemma_fundamental_div_mod(n as int, 10);
    }
}

/// The digit run of `digits_end` is exactly the leading digits: everything
/// before it is a digit, and it stops at the end or at a non-digit.
pub proof fn lemma_digits_end(s: Seq<char>)
    ensures
        0 <= digits_end(s) <= s.len(),
        forall|j: int| 0 <= j < digits_end(s) ==> is_dec_digit(s[j]),
        digits_end(s) == s.len() || !is_dec_digit(s[digits_end(s)]),
    decreases s.len(),
{
    if s.len() != 0 && is_dec_digit(s[0]) {
        let t = s.drop_first();
        lemma_digits_end(t);
        assert forall|j: int| 0 <= j < digits_end(s) implies is_dec_digit(s[j]) by {
            if j > 0 {
                assert(s[j] == t[j - 1]);
            }
        }
        if digits_end(t) < t.len() {
            assert(s[digits_end(s)] == t[digits_end(t)]);
        }
    }
}

/// In a string made of a digit run followed by a part that opens with a
/// non-digit, the leading digit run is exactly the first part.
pub proof fn lemma_digits_end_concat(a: Seq<char>, b: Seq<char>)
    requires
        forall|j: int| 0 <= j < a.len() ==> is_dec_digit(a[j]),
        b.len() > 0,
        !is_dec_digit(b[0]),
    ensures
        digits_end(a + b) == a.len(),
    decreases a.len(),
{
    if a.len() == 0 {
        assert(a + b =~= b);
    } else {
        lemma_digits_end_concat(a.drop_first(), b);
        assert((a + b).drop_first() =~= a.drop_first() + b);
        assert((a + b)[0] == a[0]);
    }
}

/// A longer digit prefix never has a smaller value.
pub proof fn lemma_dec_val_prefix(s: Seq<char>, i: int)
    requires
        0 <= i <= s.len(),
    ensures
        dec_val(s.take(i)) <= dec_val(s),
    decreases s.len() - i,
{
    if i < s.len() {
        lemma_dec_val_prefix(s.drop_last(), i);
        assert(s.drop_last().take(i) =~= s.take(i));
    } else {
        assert(s.take(i) =~= s);
    }
}

/// Character of one decimal digit, as a borrowed string.
pub fn dec_digit_str(d: u32) -> (r: &'static str)
    requires
        d < 10,
    ensures
        r@ =~= seq![dec_digit_char(d as nat)],
{
    proof {
        reveal_strlit("0");
        reveal_strlit("1");
        reveal_strlit("2");
        reveal_strlit("3");
        reveal_strlit("4");
        reveal_strlit("5");
        reveal_strlit("6");
        reveal_strlit("7");
        reveal_strlit("8");
        reveal_strlit("9");
    }
    if d == 0 {
        "0"
    } else if d == 1 {
        "1"
    } else if d == 2 {
        "2"
    } else if d == 3 {
        "3"
    } else if d == 4 {
        "4"
    } else if d == 5 {
        "5"
    } else if d == 6 {
        "6"
    } else if d == 7 {
        "7"
    } else if d == 8 {
        "8"
    } else {
        "9"
    }
}

/// Decimal numeral of `n`.
pub fn u32_to_dec(n: u32) -> (r: String)
    ensures
        r@ == dec_rep(n as nat),
    decreases n,
{
    if n < 10 {
        String::from_str(dec_digit_str(n))
    } else {
        let mut s = u32_to_dec(n / 10);
        s.append(dec_digit_str(n % 10));
        proof {
            assert(dec_rep((n / 10) as nat).push(dec_digit_char((n % 10) as nat)) =~= dec_rep(
                (n / 10) as nat,
            ) + seq![dec_digit_char((n % 10) as nat)]);
        }
        s
    }
}

/// Value of the run of decimal digits opening `s`, with the rest of `s`
/// behind it. `None` where no digit opens `s` or the value does not fit
/// in 32 bits.
pub fn take_u32<'a>(s: &'a str) -> (r: Option<(u32, &'a str)>)
    ensures
        match r {
            Some(p) => {
                let e = digits_end(s@);
                &&& e > 0
                &&& dec_val(s@.take(e)) <= u32::MAX
                &&& p.0 as nat == dec_val(s@.take(e))
                &&& p.1@ == s@.skip(e)
            },
            None => digits_end(s@) == 0 || dec_val(s@.take(digits_end(s@))) > u32::MAX,
        },
{
    proof {
        lemma_digits_end(s@);
    }
    let ghost e = digits_end(s@);
    let len = s.unicode_len();
    let mut i: usize = 0;
    let mut stop = false;
    while i < len && !stop
        invariant
            len == s@.len(),
            0 <= i <= len,
            e == digits_end(s@),
            0 <= e <= len,
            !stop ==> i <= e && (forall|j: int| 0 <= j < i ==> is_dec_digit(s@[j])),
            stop ==> i == e,
        decreases len - i + (if stop { 0int } else { 1int }),
    {
        let c = s.get_char(i) as u32;
        if 48 <= c && c <= 57 {
            proof {
                lemma_digits_end(s@);
                assert(is_dec_digit(s@[i as int]));
                if e <= i {
                    assert(!is_dec_digit(s@[e]));
                    assert(false);
                }
            }
            i += 1;
        } else {
            proof {
                lemma_digits_end(s@);
                assert(!is_dec_digit(s@[i as int]));
                if i < e {
                    assert(is_dec_digit(s@[i as int]));
                }
            }
            stop = true;
        }
    }
    proof {
        lemma_digits_end(s@);
        if !stop {
            // every character is a digit, so the run spans the string
            if e < len {
                assert(is_dec_digit(s@[e]));
            }
        }
        assert(i == e);
    }
    if i == 0 {
        return None;
    }
    let mut acc: u64 = 0;
    let mut k: usize = 0;
    while k < i
        invariant
            len == s@.len(),
            e == digits_end(s@),
            0 < i <= len,
            i == e,
            0 <= k <= i,
            forall|j: int| 0 <= j < e ==> is_dec_digit(s@[j]),
            acc as nat == dec_val(s@.take(k as int)),
            acc <= u32::MAX,
        decreases i - k,
    {
        let c = s.get_char(k) as u32;
        proof {
            assert(is_dec_digit(s@[k as int]));
        }
        let d = (c - 48) as u64;
        let next = acc * 10 + d;
        proof {
            assert(s@.take(k + 1).drop_last() =~= s@.take(k as int));
            assert(s@.take(k + 1).last() == s@[k as int]);
        }
        if next > u32::MAX as u64 {
            proof {
                lemma_dec_val_prefix(s@.take(e), k + 1);
                assert(s@.take(e).take(k + 1) =~= s@.take(k + 1));
            }
            return None;
        }
        acc = next;
        k += 1;
    }
    proof {
        assert(s@.take(i as int) =~= s@.take(e));
    }
    let rest = s.substring_char(i, len);
    Some((acc as u32, rest))
}

/// Character of one hexadecimal digit (lower case).
pub open spec fn hex_digit_char(d: nat) -> char {
    if d < 10 {
        dec_digit_char(d)
    } else if d == 10 {
        'a'
    } else if d == 11 {
        'b'
    } else if d == 12 {
        'c'
    } else if d == 13 {
        'd'
    } else if d == 14 {
        'e'
    } else {
        'f'
    }
}

/// Hexadecimal numeral of `n`, lower case, no leading zeros.
pub open spec fn hex_rep(n: nat) -> Seq<char>
    decreases n,
{
    if n < 16 {
        seq![hex_digit_char(n)]
    } else {
        hex_rep(n / 16).push(hex_digit_char(n % 16))
    }
}

/// A hexadecimal numeral holds only digits and the letters `a` to `f`.
pub proof fn lemma_hex_rep_chars(n: nat)
    ensures
        hex_rep(n).len() >= 1,
        forall|i: int| 0 <= i < hex_rep(n).len() ==> (is_dec_digit(#[trigger] hex_rep(n)[i])
            || 97 <= hex_rep(n)[i] as int <= 102),
    decreases n,
{
    if n >= 16 {
        lemma_hex_rep_chars(n / 16);
    }
}

/// Character of one hexadecimal digit, as a borrowed string.
pub fn hex_digit_str(d: u32) -> (r: &'static str)
    requires
        d < 16,
    ensures
        r@ =~= seq![hex_digit_char(d as nat)],
{
    proof {
        reveal_strlit("a");
        reveal_strlit("b");
        reveal_strlit("c");
        reveal_strlit("d");
        reveal_strlit("e");
        reveal_strlit("f");
    }
    if d < 10 {
        dec_digit_str(d)
    } else if d == 10 {
        "a"
    } else if d == 11 {
        "b"
    } else if d == 12 {
        "c"
    } else if d == 13 {
        "d"
    } else if d == 14 {
        "e"
    } else {
        "f"
    }
}

/// Hexadecimal numeral of `n`, appended to `out`.
pub fn push_hex(out: &mut String, n: u16)
    ensures
        final(out)@ == old(out)@ + hex_rep(n as nat),
    decreases n,
{
    if n < 16 {
        out.append(hex_digit_str(n as u32));
    } else {
        push_hex(out, n / 16);
        out.append(hex_digit_str((n % 16) as u32));
        proof {
            assert(hex_rep((n / 16) as nat).push(hex_digit_char((n % 16) as nat)) =~= hex_rep(
                (n / 16) as nat,
            ) + seq![hex_digit_char((n % 16) as nat)]);
        }
    }
}

} // verus!
