//! Small string utilities with exact character-level contracts.

use crate::hashing::hex_digit;
use vstd::multiset::Multiset;
use vstd::prelude::*;
use vstd::string::StrSliceExecFns;

verus! {

broadcast use {vstd::multiset::group_multiset_axioms, vstd::multiset::lemma_multiset_empty_len};

/// Character-for-character equality of two string slices.
pub fn str_eq(a: &str, b: &str) -> (r: bool)
    ensures
        r == (a@ == b@),
{
    let na: usize = a.unicode_len();
    let nb: usize = b.unicode_len();
    if na != nb {
        return false;
    }
    let mut i: usize = 0;
    while i < na
        invariant
            na == a@.len() == b@.len(),
            0 <= i <= na,
            forall|k: int| 0 <= k < i ==> a@[k] == b@[k],
        decreases na - i,
    {
        if a.get_char(i) != b.get_char(i) {
            return false;
        }
        i = i + 1;
    }
    proof {
        assert(a@ =~= b@);
    }
    true
}

/// The code point of a character with an upper-case ASCII letter lowered.
pub open spec fn lower_cp(c: char) -> int {
    if 'A' <= c <= 'Z' {
        (c as u32) + 32
    } else {
        (c as u32) as int
    }
}

/// Equality of two string slices up to ASCII case.
pub open spec fn spec_ascii_ci_eq(a: Seq<char>, b: Seq<char>) -> bool {
    a.len() == b.len() && forall|i: int| 0 <= i < a.len() ==> lower_cp(a[i]) == lower_cp(b[i])
}

/// Compares two string slices, treating ASCII letters case-insensitively.
pub fn ascii_ci_eq(a: &str, b: &str) -> (r: bool)
    ensures
        r == spec_ascii_ci_eq(a@, b@),
{
    let na: usize = a.unicode_len();
    let nb: usize = b.unicode_len();
    if na != nb {
        return false;
    }
    let mut i: usize = 0;
    while i < na
        invariant
            na == a@.len() == b@.len(),
            0 <= i <= na,
            forall|k: int| 0 <= k < i ==> lower_cp(a@[k]) == lower_cp(b@[k]),
        decreases na - i,
    {
        let ca = a.get_char(i);
        let cb = b.get_char(i);
        let la: u32 = if 'A' <= ca && ca <= 'Z' {
            ca as u32 + 32
        } else {
            ca as u32
        };
        let lb: u32 = if 'A' <= cb && cb <= 'Z' {
            cb as u32 + 32
        } else {
            cb as u32
        };
        if la != lb {
            return false;
        }
        i = i + 1;
    }
    true
}

/// Lexicographic order on character sequences, by code point, with a
/// prefix before its extensions.
pub open spec fn lex_le(a: Seq<char>, b: Seq<char>) -> bool
    decreases a.len(),
{
    if a.len() == 0 {
        true
    } else if b.len() == 0 {
        false
    } else if a.first() != b.first() {
        (a.first() as int) < (b.first() as int)
    } else {
        lex_le(a.drop_first(), b.drop_first())
    }
}

/// Order does not distinguish a sequence from itself.
pub proof fn lemma_lex_le_refl(a: Seq<char>)
    ensures
        lex_le(a, a),
    decreases a.len(),
{
    if a.len() > 0 {
        lemma_lex_le_refl(a.drop_first());
    }
}

/// Any two character sequences are ordered one way or the other.
pub proof fn lemma_lex_le_total(a: Seq<char>, b: Seq<char>)
    ensures
        lex_le(a, b) || lex_le(b, a),
    decreases a.len(),
{
    if a.len() == 0 {
    } else if b.len() == 0 {
    } else if a.first() == b.first() {
        lemma_lex_le_total(a.drop_first(), b.drop_first());
    } else {
        assert((a.first() as int) != (b.first() as int));
    }
}

/// Lexicographic order is transitive.
pub proof fn lemma_lex_le_trans(a: Seq<char>, b: Seq<char>, c: Seq<char>)
    requires
        lex_le(a, b),
        lex_le(b, c),
    ensures
        lex_le(a, c),
    decreases a.len(),
{
    if a.len() > 0 && b.len() > 0 && c.len() > 0 && a.first() == b.first() && b.first()
        == c.first() {
        lemma_lex_le_trans(a.drop_first(), b.drop_first(), c.drop_first());
    }
}

/// Compares two string slices lexicographically by code point.
pub fn str_le(a: &str, b: &str) -> (r: bool)
    ensures
        r == lex_le(a@, b@),
{
    let na: usize = a.unicode_len();
    let nb: usize = b.unicode_len();
    let mut i: usize = 0;
    proof {
        assert(a@.skip(0) =~= a@);
        assert(b@.skip(0) =~= b@);
    }
    loop
        invariant
            na == a@.len(),
            nb == b@.len(),
            0 <= i <= na,
            0 <= i <= nb,
            lex_le(a@, b@) == lex_le(a@.skip(i as int), b@.skip(i as int)),
        decreases na - i,
    {
        if i >= na {
            proof {
                assert(a@.skip(i as int).len() == 0);
            }
            return true;
        }
        if i >= nb {
            proof {
                assert(b@.skip(i as int).len() == 0);
                assert(a@.skip(i as int).len() > 0);
            }
            return false;
        }
        let ca = a.get_char(i);
        let cb = b.get_char(i);
        proof {
            assert(a@.skip(i as int).first() == a@[i as int]);
            assert(b@.skip(i as int).first() == b@[i as int]);
            assert(a@.skip(i as int).drop_first() =~= a@.skip(i as int + 1));
            assert(b@.skip(i as int).drop_first() =~= b@.skip(i as int + 1));
        }
        if ca != cb {
            return (ca as u32) < (cb as u32);
        }
        i = i + 1;
    }
}

/// A sequence of strings in ascending lexicographic order.
pub open spec fn strings_sorted(s: Seq<Seq<char>>) -> bool {
    forall|i: int, j: int| 0 <= i < j < s.len() ==> lex_le(s[i], s[j])
}

/// Sorts strings into ascending lexicographic order; the result holds
/// exactly the given strings.
pub fn sort_strings(v: Vec<String>) -> (r: Vec<String>)
    ensures
        strings_sorted(r.deep_view()),
        r.deep_view().to_multiset() == v.deep_view().to_multiset(),
{
    let mut rest = v;
    let mut out: Vec<String> = Vec::new();
    proof {
        out.deep_view().to_multiset_ensures();
        assert(out.deep_view().to_multiset().len() == 0);
        assert(out.deep_view().to_multiset() =~= Multiset::<Seq<char>>::empty());
        assert(out.deep_view().to_multiset().add(rest.deep_view().to_multiset())
            =~= v.deep_view().to_multiset());
    }
    while rest.len() > 0
        invariant
            strings_sorted(out.deep_view()),
            forall|i: int, j: int|
                0 <= i < out.deep_view().len() && 0 <= j < rest.deep_view().len() ==> lex_le(
                    out.deep_view()[i],
                    rest.deep_view()[j],
                ),
            out.deep_view().to_multiset().add(rest.deep_view().to_multiset()) == v.deep_view()
                .to_multiset(),
        decreases rest.len(),
    {
        let m = min_index(&rest);
        let ghost old_rest = rest.deep_view();
        let ghost old_out = out.deep_view();
        let x = rest.remove(m);
        proof {
            old_rest.to_multiset_ensures();
            old_out.to_multiset_ensures();
            assert(rest.deep_view() =~= old_rest.remove(m as int));
            assert(old_rest.remove(m as int).to_multiset() =~= old_rest.to_multiset().remove(
                old_rest[m as int],
            ));
        }
        out.push(x);
        proof {
            assert(out.deep_view() =~= old_out.push(old_rest[m as int]));
            assert(old_out.push(old_rest[m as int]).to_multiset() =~= old_out.to_multiset().insert(
                old_rest[m as int],
            ));
            assert(out.deep_view().to_multiset().add(rest.deep_view().to_multiset())
                =~= v.deep_view().to_multiset());
            assert forall|i: int, j: int|
                0 <= i < out.deep_view().len() && 0 <= j < rest.deep_view().len() implies lex_le(
                out.deep_view()[i],
                rest.deep_view()[j],
            ) by {
                if i < old_out.len() {
                    if j < m {
                        assert(rest.deep_view()[j] == old_rest[j]);
                    } else {
                        assert(rest.deep_view()[j] == old_rest[j + 1]);
                    }
                } else {
                    assert(out.deep_view()[i] == old_rest[m as int]);
                    if j < m {
                        assert(rest.deep_view()[j] == old_rest[j]);
                    } else {
                        assert(rest.deep_view()[j] == old_rest[j + 1]);
                    }
                }
            }
            assert forall|i: int, j: int|
                0 <= i < j < out.deep_view().len() implies lex_le(
                out.deep_view()[i],
                out.deep_view()[j],
            ) by {
                if j < old_out.len() {
                    assert(lex_le(old_out[i], old_out[j]));
                } else {
                    assert(out.deep_view()[j] == old_rest[m as int]);
                    assert(lex_le(old_out[i], old_rest[m as int]));
                }
            }
        }
    }
    proof {
        rest.deep_view().to_multiset_ensures();
        assert(rest.deep_view().to_multiset().len() == 0);
        assert(rest.deep_view().to_multiset() =~= Multiset::<Seq<char>>::empty());
        assert(out.deep_view().to_multiset().add(Multiset::empty()) =~= out.deep_view()
            .to_multiset());
    }
    out
}

/// The index of a least string, in lexicographic order.
fn min_index(v: &Vec<String>) -> (m: usize)
    requires
        v.len() > 0,
    ensures
        0 <= m < v.len(),
        forall|k: int| 0 <= k < v.deep_view().len() ==> lex_le(v.deep_view()[m as int], v.deep_view()[k]),
{
    let mut m: usize = 0;
    let mut i: usize = 1;
    proof {
        lemma_lex_le_refl(v.deep_view()[0]);
    }
    while i < v.len()
        invariant
            0 <= m < i <= v.len(),
            i <= v.deep_view().len(),
            forall|k: int| 0 <= k < i ==> lex_le(v.deep_view()[m as int], v.deep_view()[k]),
        decreases v.len() - i,
    {
        if !str_le(v[m].as_str(), v[i].as_str()) {
            proof {
                lemma_lex_le_total(v.deep_view()[m as int], v.deep_view()[i as int]);
                assert forall|k: int| 0 <= k < i + 1 implies lex_le(
                    v.deep_view()[i as int],
                    v.deep_view()[k],
                ) by {
                    if k < i {
                        lemma_lex_le_trans(
                            v.deep_view()[i as int],
                            v.deep_view()[m as int],
                            v.deep_view()[k],
                        );
                    } else {
                        lemma_lex_le_refl(v.deep_view()[i as int]);
                    }
                }
            }
            m = i;
        } else {
            proof {
                assert forall|k: int| 0 <= k < i + 1 implies lex_le(
                    v.deep_view()[m as int],
                    v.deep_view()[k],
                ) by {
                }
            }
        }
        i = i + 1;
    }
    m
}

/// Whether `p` is a prefix of `s`.
pub open spec fn spec_has_prefix(s: Seq<char>, p: Seq<char>) -> bool {
    p.len() <= s.len() && s.subrange(0, p.len() as int) == p
}

/// Decides whether `p` is a prefix of `s`.
pub fn str_has_prefix(s: &str, p: &str) -> (r: bool)
    ensures
        r == spec_has_prefix(s@, p@),
{
    let ns: usize = s.unicode_len();
    let np: usize = p.unicode_len();
    if np > ns {
        return false;
    }
    let mut i: usize = 0;
    while i < np
        invariant
            ns == s@.len(),
            np == p@.len(),
            np <= ns,
            0 <= i <= np,
            forall|k: int| 0 <= k < i ==> s@[k] == p@[k],
        decreases np - i,
    {
        if s.get_char(i) != p.get_char(i) {
            proof {
                assert(!spec_has_prefix(s@, p@)) by {
                    if s@.subrange(0, p@.len() as int) == p@ {
                        assert(s@.subrange(0, p@.len() as int)[i as int] == s@[i as int]);
                    }
                }
            }
            return false;
        }
        i = i + 1;
    }
    proof {
        assert(s@.subrange(0, np as int) =~= p@);
    }
    true
}

/// The decimal digits of a natural number, most significant first.
pub open spec fn dec_of(n: nat) -> Seq<char>
    decreases n,
{
    if n < 10 {
        seq![hex_digit(n as u8)]
    } else {
        dec_of(n / 10).push(hex_digit((n % 10) as u8))
    }
}

/// Renders a number in decimal.
pub fn u64_dec(n: u64) -> (r: String)
    ensures
        r@ == dec_of(n as nat),
    decreases n,
{
    if n < 10 {
        let s = dec_digit_str(n as u8).to_owned();
        s
    } else {
        let mut s = u64_dec(n / 10);
        let ghost head = s@;
        s.append(dec_digit_str((n % 10) as u8));
        proof {
            assert(s@ =~= head.push(hex_digit((n % 10) as u8)));
        }
        s
    }
}

/// The one-character string of a decimal digit.
fn dec_digit_str(v: u8) -> (r: &'static str)
    requires
        v < 10,
    ensures
        r@ == seq![hex_digit(v)],
{
    proof {
        reveal_strlit("0");
        reveal_strlit("1");
        reveal_strlit("2");
        reveal_strlit("3");
        reveal_strlit("4");
        reveal_strlit("5");
        reveal_strlit("6");
        reveal_strlit("7");
        reveal_strlit("8");
        reveal_strlit("9");
    }
    match v {
        0 => "0",
        1 => "1",
        2 => "2",
        3 => "3",
        4 => "4",
        5 => "5",
        6 => "6",
        7 => "7",
        8 => "8",
        _ => "9",
    }
}

} // verus!
