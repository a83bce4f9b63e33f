//! The text cell model: optional strings, compared lexicographically by code
//! point (which coincides with byte-lexicographic order of their UTF-8
//! encodings), with absence as the null sentinel.

use vstd::prelude::*;
use crate::numeric::Ord3;

verus! {

/// The opposite comparison outcome.
pub open spec fn spec_reverse(o: Ord3) -> Ord3 {
    match o {
        Ord3::Less => Ord3::Greater,
        Ord3::Equal => Ord3::Equal,
        Ord3::Greater => Ord3::Less,
    }
}

/// The opposite comparison outcome, executable form.
pub fn reverse_ord3(o: Ord3) -> (r: Ord3)
    ensures
        r == spec_reverse(o),
{
    match o {
        Ord3::Less => Ord3::Greater,
        Ord3::Equal => Ord3::Equal,
        Ord3::Greater => Ord3::Less,
    }
}

/// Lexicographic three-outcome comparison of two character sequences.
pub open spec fn spec_lex_cmp(a: Seq<char>, b: Seq<char>) -> Ord3
    decreases a.len(),
{
    if a.len() == 0 && b.len() == 0 {
        Ord3::Equal
    } else if a.len() == 0 {
        Ord3::Less
    } else if b.len() == 0 {
        Ord3::Greater
    } else if (a[0] as u32) < (b[0] as u32) {
        Ord3::Less
    } else if (a[0] as u32) > (b[0] as u32) {
        Ord3::Greater
    } else {
        spec_lex_cmp(a.drop_first(), b.drop_first())
    }
}

/// Two characters with the same code point are the same character.
proof fn lemma_char_inj(x: char, y: char)
    requires
        x as u32 == y as u32,
    ensures
        x == y,
{
}

/// Two sequences compare `Equal` exactly when they are the same sequence.
pub proof fn lemma_lex_eq(a: Seq<char>, b: Seq<char>)
    ensures
        spec_lex_cmp(a, b) == Ord3::Equal <==> a == b,
    decreases a.len(),
{
    if a.len() == 0 || b.len() == 0 {
        if a.len() == 0 && b.len() == 0 {
            assert(a =~= b);
        }
    } else if (a[0] as u32) == (b[0] as u32) {
        lemma_lex_eq(a.drop_first(), b.drop_first());
        lemma_char_inj(a[0], b[0]);
        if spec_lex_cmp(a, b) == Ord3::Equal {
            assert(spec_lex_cmp(a.drop_first(), b.drop_first()) == Ord3::Equal);
            assert(a.drop_first() == b.drop_first());
            assert forall|i: int| 0 <= i < a.len() implies a[i] == b[i] by {
                if i > 0 {
                    assert(a.drop_first()[i - 1] == b.drop_first()[i - 1]);
                }
            }
            assert(a =~= b);
        }
    }
}

/// Swapping the arguments reverses the outcome.
pub proof fn lemma_lex_flip(a: Seq<char>, b: Seq<char>)
    ensures
        spec_lex_cmp(a, b) == spec_reverse(spec_lex_cmp(b, a)),
    decreases a.len(),
{
    if a.len() != 0 && b.len() != 0 && (a[0] as u32) == (b[0] as u32) {
        lemma_lex_flip(a.drop_first(), b.drop_first());
    }
}

/// Strict lexicographic order is transitive.
pub proof fn lemma_lex_trans(a: Seq<char>, b: Seq<char>, c: Seq<char>)
    requires
        spec_lex_cmp(a, b) == Ord3::Less,
        spec_lex_cmp(b, c) == Ord3::Less,
    ensures
        spec_lex_cmp(a, c) == Ord3::Less,
    decreases a.len(),
{
    if a.len() != 0 && b.len() != 0 && c.len() != 0 && (a[0] as u32) == (b[0] as u32) && (b[0] as u32) == (c[0] as u32) {
        lemma_lex_trans(a.drop_first(), b.drop_first(), c.drop_first());
    }
}

/// Lexicographic comparison of two strings, executable form.
pub fn lex_cmp(a: &str, b: &str) -> (r: Ord3)
    ensures
        r == spec_lex_cmp(a@, b@),
{
    let alen = a.unicode_len();
    let blen = b.unicode_len();
    let mut i: usize = 0;
    proof {
        assert(a@.skip(0) =~= a@);
        assert(b@.skip(0) =~= b@);
    }
    while i < alen && i < blen
        invariant
            i <= alen,
            i <= blen,
            alen == a@.len(),
            blen == b@.len(),
            spec_lex_cmp(a@, b@) == spec_lex_cmp(a@.skip(i as int), b@.skip(i as int)),
        decreases alen - i,
    {
        let ca = a.get_char(i);
        let cb = b.get_char(i);
        proof {
            assert(a@.skip(i as int)[0] == a@[i as int]);
            assert(b@.skip(i as int)[0] == b@[i as int]);
            assert(a@.skip(i as int).drop_first() =~= a@.skip(i as int + 1));
            assert(b@.skip(i as int).drop_first() =~= b@.skip(i as int + 1));
        }
        if (ca as u32) < (cb as u32) {
            return Ord3::Less;
        }
        if (ca as u32) > (cb as u32) {
            return Ord3::Greater;
        }
        i = i + 1;
    }
    proof {
        assert(a@.skip(i as int).len() == alen - i);
        assert(b@.skip(i as int).len() == blen - i);
    }
    if alen == blen {
        Ord3::Equal
    } else if alen < blen {
        Ord3::Less
    } else {
        Ord3::Greater
    }
}

/// The character sequence held by an optional text cell, if any.
pub open spec fn spec_text_view(o: Option<String>) -> Option<Seq<char>> {
    match o {
        Option::Some(s) => Option::Some(s@),
        Option::None => Option::None,
    }
}

/// Null-aware three-outcome comparison of two text cells: both absent compare
/// equal; exactly one absent is placed by `nulls_last` regardless of
/// `descending`; two present values compare lexicographically, inverted when
/// `descending`.
pub open spec fn spec_cmp_text(
    a: Option<Seq<char>>,
    b: Option<Seq<char>>,
    descending: bool,
    nulls_last: bool,
) -> Ord3 {
    match (a, b) {
        (Option::None, Option::None) => Ord3::Equal,
        (Option::None, Option::Some(_)) => if nulls_last {
            Ord3::Greater
        } else {
            Ord3::Less
        },
        (Option::Some(_), Option::None) => if nulls_last {
            Ord3::Less
        } else {
            Ord3::Greater
        },
        (Option::Some(x), Option::Some(y)) => {
            let c = spec_lex_cmp(x, y);
            if descending {
                spec_reverse(c)
            } else {
                c
            }
        },
    }
}

/// Null-aware comparison of two text cells, executable form.
pub fn cmp_text(a: &Option<String>, b: &Option<String>, descending: bool, nulls_last: bool) -> (r:
    Ord3)
    ensures
        r == spec_cmp_text(spec_text_view(*a), spec_text_view(*b), descending, nulls_last),
{
    match (a, b) {
        (Option::None, Option::None) => Ord3::Equal,
        (Option::None, Option::Some(_)) => if nulls_last {
            Ord3::Greater
        } else {
            Ord3::Less
        },
        (Option::Some(_), Option::None) => if nulls_last {
            Ord3::Less
        } else {
            Ord3::Greater
        },
        (Option::Some(x), Option::Some(y)) => {
            let c = lex_cmp(x.as_str(), y.as_str());
            if descending {
                reverse_ord3(c)
            } else {
                c
            }
        },
    }
}

} // verus!
