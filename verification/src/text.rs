//! Character-level utilities shared by the wire codec: string equality,
//! prefix stripping, and locating the first double-quote of a string.

use vstd::prelude::*;
use vstd::string::StrSliceExecFns;

verus! {

/// Index of the first `"` character of `s`, if any.
pub open spec fn find_quote(s: Seq<char>) -> Option<int>
    decreases s.len(),
{
    if s.len() == 0 {
        None
    } else if s[0] == '"' {
        Some(0int)
    } else {
        match find_quote(s.drop_first()) {
            None => None,
            Some(i) => Some(i + 1),
        }
    }
}

/// `s` holds no double quote, so it can stand unescaped between the
/// quotes of a JSON string.
pub open spec fn quote_free(s: Seq<char>) -> bool {
    forall|i: int| 0 <= i < s.len() ==> s[i] != '"'
}

/// Quote-free strings stay quote-free under concatenation.
pub proof fn lemma_quote_free_concat(a: Seq<char>, b: Seq<char>)
    requires
        quote_free(a),
        quote_free(b),
    ensures
        quote_free(a + b),
{
    assert forall|i: int| 0 <= i < (a + b).len() implies (a + b)[i] != '"' by {
        if i < a.len() {
            assert((a + b)[i] == a[i]);
        } else {
            assert((a + b)[i] == b[i - a.len()]);
        }
    }
}

/// `p` is a prefix of `s`.
pub open spec fn starts_with(s: Seq<char>, p: Seq<char>) -> bool {
    p.len() <= s.len() && s.take(p.len() as int) == p
}

/// What `find_quote` returns is the first quote: it is a quote, nothing
/// before it is one, and `None` means the string holds none at all.
pub proof fn lemma_find_quote_first(s: Seq<char>)
    ensures
        match find_quote(s) {
            Some(i) => 0 <= i < s.len() && s[i] == '"' && (forall|j: int|
                0 <= j < i ==> s[j] != '"'),
            None => forall|j: int| 0 <= j < s.len() ==> s[j] != '"',
        },
    decreases s.len(),
{
    if s.len() != 0 && s[0] != '"' {
        let t = s.drop_first();
        lemma_find_quote_first(t);
        match find_quote(t) {
            Some(i) => {
                assert(s[i + 1] == t[i]);
                assert forall|j: int| 0 <= j < i + 1 implies s[j] != '"' by {
                    if j > 0 {
                        assert(s[j] == t[j - 1]);
                    }
                }
            },
            None => {
                assert forall|j: int| 0 <= j < s.len() implies s[j] != '"' by {
                    if j > 0 {
                        assert(s[j] == t[j - 1]);
                    }
                }
            },
        }
    }
}

/// In a string made of a quote-free part followed by a part that opens with
/// a quote, the first quote stands exactly where the second part begins.
pub proof fn lemma_find_quote_concat(a: Seq<char>, b: Seq<char>)
    requires
        forall|j: int| 0 <= j < a.len() ==> a[j] != '"',
        b.len() > 0,
        b[0] == '"',
    ensures
        find_quote(a + b) == Some(a.len() as int),
    decreases a.len(),
{
    if a.len() == 0 {
        assert(a + b =~= b);
    } else {
        lemma_find_quote_concat(a.drop_first(), b);
        assert((a + b).drop_first() =~= a.drop_first() + b);
    }
}

/// Stripping a prefix off a concatenation gives back the remainder.
pub proof fn lemma_strip_concat(p: Seq<char>, t: Seq<char>)
    ensures
        starts_with(p + t, p),
        (p + t).skip(p.len() as int) =~= t,
{
    assert((p + t).take(p.len() as int) =~= p);
}

/// Character-by-character string equality, settled against the views.
pub fn str_eq(a: &str, b: &str) -> (r: bool)
    ensures
        r <==> a@ == b@,
{
    let alen = a.unicode_len();
    let blen = b.unicode_len();
    if alen != blen {
        return false;
    }
    let mut i: usize = 0;
    while i < alen
        invariant
            alen == a@.len(),
            blen == b@.len(),
            alen == blen,
            0 <= i <= alen,
            forall|j: int| 0 <= j < i ==> a@[j] == b@[j],
        decreases alen - i,
    {
        if a.get_char(i) != b.get_char(i) {
            return false;
        }
        i += 1;
    }
    proof {
        assert(a@ =~= b@);
    }
    true
}

/// The remainder of `s` after the prefix `lit`, or `None` where `lit` is
/// not a prefix of `s`.
pub fn strip_lit<'a>(s: &'a str, lit: &str) -> (r: Option<&'a str>)
    ensures
        match r {
            Some(t) => starts_with(s@, lit@) && t@ == s@.skip(lit@.len() as int),
            None => !starts_with(s@, lit@),
        },
{
    let slen = s.unicode_len();
    let llen = lit.unicode_len();
    if llen > slen {
        return None;
    }
    let mut i: usize = 0;
    while i < llen
        invariant
            slen == s@.len(),
            llen == lit@.len(),
            llen <= slen,
            0 <= i <= llen,
            forall|j: int| 0 <= j < i ==> s@[j] == lit@[j],
        decreases llen - i,
    {
        if s.get_char(i) != lit.get_char(i) {
            proof {
                assert(s@.take(lit@.len() as int)[i as int] != lit@[i as int]);
            }
            return None;
        }
        i += 1;
    }
    proof {
        assert(s@.take(lit@.len() as int) =~= lit@);
    }
    Some(s.substring_char(llen, slen))
}

/// Index of the first `"` of `s`, found by a scan.
pub fn scan_quote(s: &str) -> (r: Option<usize>)
    ensures
        match r {
            Some(i) => find_quote(s@) == Some(i as int),
            None => find_quote(s@) == None::<int>,
        },
{
    let len = s.unicode_len();
    let mut i: usize = 0;
    while i < len
        invariant
            len == s@.len(),
            0 <= i <= len,
            forall|j: int| 0 <= j < i ==> s@[j] != '"',
        decreases len - i,
    {
        if s.get_char(i) == '"' {
            proof {
                lemma_find_quote_first(s@);
            }
            return Some(i);
        }
        i += 1;
    }
    proof {
        lemma_find_quote_first(s@);
    }
    None
}

} // verus!
