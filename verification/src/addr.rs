//! Textual form of network-layer addresses: dotted decimal for IPv4; for
//! IPv6 the canonical compressed form — lower-case hexadecimal groups
//! joined by colons, the leftmost longest run of two or more zero groups
//! written `::`, and an IPv4-mapped address written `::ffff:` followed by
//! its dotted-decimal tail.

use vstd::prelude::*;
use vstd::string::StringExecFns;
use crate::digits::{
    dec_rep, hex_rep, is_dec_digit, lemma_dec_rep_digits, lemma_hex_rep_chars, u32_to_dec,
    push_hex,
};
use crate::text::{quote_free, lemma_quote_free_concat};

verus! {

/// Dotted-decimal text of an IPv4 address given by its four octets.
pub open spec fn ipv4_text(a: u8, b: u8, c: u8, d: u8) -> Seq<char> {
    dec_rep(a as nat) + "."@ + dec_rep(b as nat) + "."@ + dec_rep(c as nat) + "."@ + dec_rep(
        d as nat,
    )
}

/// Count of consecutive zero groups of `g` starting at `i`.
pub open spec fn zero_run_len(g: Seq<u16>, i: int) -> int
    decreases g.len() - i,
{
    if i < 0 || i >= g.len() || g[i] != 0 {
        0
    } else {
        1 + zero_run_len(g, i + 1)
    }
}

/// Start and length of the leftmost longest run of zero groups beginning
/// at `i` or later; `(g.len(), 0)` where no group from `i` on is zero.
pub open spec fn best_zero_run(g: Seq<u16>, i: int) -> (int, int)
    decreases g.len() - i,
{
    if i < 0 || i >= g.len() {
        (g.len() as int, 0)
    } else {
        let cur = zero_run_len(g, i);
        let rest = best_zero_run(g, i + 1);
        if cur >= rest.1 {
            (i, cur)
        } else {
            rest
        }
    }
}

/// Groups `i` to `j` of `g` in lower-case hexadecimal, joined by colons.
pub open spec fn hex_groups(g: Seq<u16>, i: int, j: int) -> Seq<char>
    recommends
        0 <= i,
        j <= g.len(),
    decreases j - i,
{
    if i >= j {
        Seq::empty()
    } else if i + 1 == j {
        hex_rep(g[i] as nat)
    } else {
        hex_rep(g[i] as nat) + ":"@ + hex_groups(g, i + 1, j)
    }
}

/// An IPv4-mapped IPv6 address: five zero groups, then `ffff`, then the
/// four octets of an IPv4 address.
pub open spec fn is_ipv4_mapped(g: Seq<u16>) -> bool
    recommends
        g.len() == 8,
{
    g[0] == 0 && g[1] == 0 && g[2] == 0 && g[3] == 0 && g[4] == 0 && g[5] == 0xffff
}

/// Canonical text of an IPv6 address given by its eight 16-bit groups:
/// an IPv4-mapped address shows its dotted-decimal tail behind `::ffff:`;
/// otherwise the leftmost longest run of two or more zero groups is
/// compressed to `::`, and a lone zero group stands as `0`.
pub open spec fn ipv6_text(g: Seq<u16>) -> Seq<char>
    recommends
        g.len() == 8,
{
    if is_ipv4_mapped(g) {
        "::ffff:"@ + ipv4_text(
            (g[6] as int / 256) as u8,
            (g[6] as int % 256) as u8,
            (g[7] as int / 256) as u8,
            (g[7] as int % 256) as u8,
        )
    } else {
        let b = best_zero_run(g, 0);
        if b.1 > 1 {
            hex_groups(g, 0, b.0) + "::"@ + hex_groups(g, b.0 + b.1, 8)
        } else {
            hex_groups(g, 0, 8)
        }
    }
}

/// A zero run fits inside the group sequence.
proof fn lemma_zero_run_len_bounds(g: Seq<u16>, i: int)
    requires
        0 <= i <= g.len(),
    ensures
        0 <= zero_run_len(g, i),
        i + zero_run_len(g, i) <= g.len(),
    decreases g.len() - i,
{
    if i < g.len() && g[i] == 0 {
        lemma_zero_run_len_bounds(g, i + 1);
    }
}

/// The best zero run starts no earlier than `i` and fits inside the
/// group sequence.
proof fn lemma_best_zero_run_bounds(g: Seq<u16>, i: int)
    requires
        0 <= i <= g.len(),
    ensures
        i <= best_zero_run(g, i).0 <= g.len(),
        0 <= best_zero_run(g, i).1,
        best_zero_run(g, i).0 + best_zero_run(g, i).1 <= g.len(),
    decreases g.len() - i,
{
    if i < g.len() {
        lemma_zero_run_len_bounds(g, i);
        lemma_best_zero_run_bounds(g, i + 1);
    }
}

pub fn format_ipv4(a: u8, b: u8, c: u8, d: u8) -> (r: String)
    ensures
        r@ == ipv4_text(a, b, c, d),
{
    let mut s = u32_to_dec(a as u32);
    s.append(".");
    let p = u32_to_dec(b as u32);
    s.append(p.as_str());
    s.append(".");
    let p = u32_to_dec(c as u32);
    s.append(p.as_str());
    s.append(".");
    let p = u32_to_dec(d as u32);
    s.append(p.as_str());
    s
}

/// Groups `i` to `j`, joined by colons, appended to `out`.
fn push_groups(out: &mut String, g: &Vec<u16>, i: usize, j: usize)
    requires
        i <= j <= g@.len(),
    ensures
        final(out)@ == old(out)@ + hex_groups(g@, i as int, j as int),
    decreases j - i,
{
    if i >= j {
        proof {
            assert(old(out)@ + hex_groups(g@, i as int, j as int) =~= old(out)@);
        }
    } else if i + 1 == j {
        push_hex(out, g[i]);
    } else {
        push_hex(out, g[i]);
        out.append(":");
        push_groups(out, g, i + 1, j);
        proof {
            assert(old(out)@ + (hex_rep(g@[i as int] as nat) + ":"@ + hex_groups(
                g@,
                i + 1,
                j as int,
            )) =~= old(out)@ + hex_rep(g@[i as int] as nat) + ":"@ + hex_groups(
                g@,
                i + 1,
                j as int,
            ));
        }
    }
}

pub fn format_ipv6(g: &Vec<u16>) -> (r: String)
    requires
        g@.len() == 8,
    ensures
        r@ == ipv6_text(g@),
{
    if g[0] == 0 && g[1] == 0 && g[2] == 0 && g[3] == 0 && g[4] == 0 && g[5] == 0xffff {
        let mut s = String::from_str("::ffff:");
        let tail = format_ipv4(
            (g[6] / 256) as u8,
            (g[6] % 256) as u8,
            (g[7] / 256) as u8,
            (g[7] % 256) as u8,
        );
        s.append(tail.as_str());
        return s;
    }
    // leftmost longest zero run, found right to left so each step extends
    // or restarts the run at hand
    let mut start: usize = 8;
    let mut best: usize = 0;
    let mut cur: usize = 0;
    let mut i: usize = 8;
    while i > 0
        invariant
            g@.len() == 8,
            0 <= i <= 8,
            cur as int == zero_run_len(g@, i as int),
            cur as int <= 8 - i,
            start as int == best_zero_run(g@, i as int).0,
            best as int == best_zero_run(g@, i as int).1,
        decreases i,
    {
        i -= 1;
        if g[i] == 0 {
            cur = cur + 1;
        } else {
            cur = 0;
        }
        if cur >= best {
            start = i;
            best = cur;
        }
    }
    proof {
        lemma_best_zero_run_bounds(g@, 0);
    }
    let mut s = String::new();
    if best > 1 {
        push_groups(&mut s, g, 0, start);
        s.append("::");
        push_groups(&mut s, g, start + best, 8);
    } else {
        push_groups(&mut s, g, 0, 8);
    }
    proof {
        assert(s@ =~= ipv6_text(g@));
    }
    s
}

/// A decimal numeral holds no double quote.
proof fn lemma_dec_rep_quote_free(n: nat)
    ensures
        quote_free(dec_rep(n)),
{
    lemma_dec_rep_digits(n);
    assert forall|i: int| 0 <= i < dec_rep(n).len() implies dec_rep(n)[i] != '"' by {
        assert(is_dec_digit(dec_rep(n)[i]));
    }
}

/// A hexadecimal numeral holds no double quote.
proof fn lemma_hex_rep_quote_free(n: nat)
    ensures
        quote_free(hex_rep(n)),
{
    lemma_hex_rep_chars(n);
    assert forall|i: int| 0 <= i < hex_rep(n).len() implies hex_rep(n)[i] != '"' by {
        assert(is_dec_digit(hex_rep(n)[i]) || 97 <= hex_rep(n)[i] as int <= 102);
    }
}

/// The text of an IPv4 address holds no double quote.
pub proof fn lemma_ipv4_text_quote_free(a: u8, b: u8, c: u8, d: u8)
    ensures
        quote_free(ipv4_text(a, b, c, d)),
{
    reveal_strlit(".");
    assert(quote_free("."@));
    lemma_dec_rep_quote_free(a as nat);
    lemma_dec_rep_quote_free(b as nat);
    lemma_dec_rep_quote_free(c as nat);
    lemma_dec_rep_quote_free(d as nat);
    lemma_quote_free_concat(dec_rep(a as nat), "."@);
    lemma_quote_free_concat(dec_rep(a as nat) + "."@, dec_rep(b as nat));
    lemma_quote_free_concat(dec_rep(a as nat) + "."@ + dec_rep(b as nat), "."@);
    lemma_quote_free_concat(dec_rep(a as nat) + "."@ + dec_rep(b as nat) + "."@, dec_rep(c as nat));
    lemma_quote_free_concat(
        dec_rep(a as nat) + "."@ + dec_rep(b as nat) + "."@ + dec_rep(c as nat),
        "."@,
    );
    lemma_quote_free_concat(
        dec_rep(a as nat) + "."@ + dec_rep(b as nat) + "."@ + dec_rep(c as nat) + "."@,
        dec_rep(d as nat),
    );
}

/// A colon-joined range of hexadecimal groups holds no double quote.
proof fn lemma_hex_groups_quote_free(g: Seq<u16>, i: int, j: int)
    requires
        0 <= i,
        j <= g.len(),
    ensures
        quote_free(hex_groups(g, i, j)),
    decreases j - i,
{
    reveal_strlit(":");
    if i >= j {
    } else if i + 1 == j {
        lemma_hex_rep_quote_free(g[i] as nat);
    } else {
        lemma_hex_rep_quote_free(g[i] as nat);
        assert(quote_free(":"@));
        lemma_hex_groups_quote_free(g, i + 1, j);
        lemma_quote_free_concat(hex_rep(g[i] as nat), ":"@);
        lemma_quote_free_concat(hex_rep(g[i] as nat) + ":"@, hex_groups(g, i + 1, j));
    }
}

/// The text of an IPv6 address holds no double quote.
pub proof fn lemma_ipv6_text_quote_free(g: Seq<u16>)
    requires
        g.len() == 8,
    ensures
        quote_free(ipv6_text(g)),
{
    if is_ipv4_mapped(g) {
        reveal_strlit("::ffff:");
        assert(quote_free("::ffff:"@));
        lemma_ipv4_text_quote_free(
            (g[6] as int / 256) as u8,
            (g[6] as int % 256) as u8,
            (g[7] as int / 256) as u8,
            (g[7] as int % 256) as u8,
        );
        lemma_quote_free_concat(
            "::ffff:"@,
            ipv4_text(
                (g[6] as int / 256) as u8,
                (g[6] as int % 256) as u8,
                (g[7] as int / 256) as u8,
                (g[7] as int % 256) as u8,
            ),
        );
    } else {
        let b = best_zero_run(g, 0);
        lemma_best_zero_run_bounds(g, 0);
        if b.1 > 1 {
            reveal_strlit("::");
            assert(quote_free("::"@));
            lemma_hex_groups_quote_free(g, 0, b.0);
            lemma_hex_groups_quote_free(g, b.0 + b.1, 8);
            lemma_quote_free_concat(hex_groups(g, 0, b.0), "::"@);
            lemma_quote_free_concat(hex_groups(g, 0, b.0) + "::"@, hex_groups(g, b.0 + b.1, 8));
        } else {
            lemma_hex_groups_quote_free(g, 0, 8);
        }
    }
}

} // verus!
