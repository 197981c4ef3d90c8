//! Joining a finite sequence of text values into one string, with the fixed
//! two-character separator ", " (comma, space) placed strictly between
//! consecutive elements and never before the first or after the last.

use vstd::prelude::*;

verus! {

/// The fixed separator inserted between joined elements: a comma followed by
/// a space.
pub open spec fn separator() -> Seq<char> {
    seq![',', ' ']
}

/// The join of a sequence of text values: the elements in their original
/// order, with the separator strictly between consecutive elements. Zero
/// elements yield the empty sequence; a single element is returned unchanged.
pub open spec fn join_with_separator(elems: Seq<Seq<char>>) -> Seq<char>
    decreases elems.len(),
{
    if elems.len() == 0 {
        Seq::empty()
    } else if elems.len() == 1 {
        elems[0]
    } else {
        elems[0] + separator() + join_with_separator(elems.drop_first())
    }
}

/// The character sequences denoted by a sequence of string slices.
pub open spec fn views_of(strings: Seq<&str>) -> Seq<Seq<char>> {
    strings.map_values(|s: &str| s@)
}

/// The character sequences denoted by a sequence of owned strings.
pub open spec fn owned_views_of(strings: Seq<String>) -> Seq<Seq<char>> {
    strings.map_values(|s: String| s@)
}

/// How many times the separator occurs in `s`: the number of positions at
/// which a comma is immediately followed by a space. Occurrences cannot
/// overlap, so this count is well defined position by position.
pub open spec fn separator_count(s: Seq<char>) -> nat
    decreases s.len(),
{
    if s.len() < 2 {
        0
    } else {
        (if s[0] == ',' && s[1] == ' ' {
            1nat
        } else {
            0nat
        }) + separator_count(s.drop_first())
    }
}

/// The total number of separator occurrences inside the elements themselves,
/// before any joining.
pub open spec fn embedded_separator_count(elems: Seq<Seq<char>>) -> nat
    decreases elems.len(),
{
    if elems.len() == 0 {
        0
    } else {
        separator_count(elems[0]) + embedded_separator_count(elems.drop_first())
    }
}

/// Whether a separator occurrence straddles the point where `a` is
/// concatenated with `b`.
spec fn straddling_count(a: Seq<char>, b: Seq<char>) -> nat {
    if a.len() >= 1 && b.len() >= 1 && a.last() == ',' && b.first() == ' ' {
        1
    } else {
        0
    }
}

/// Separator occurrences in a concatenation: those inside each part, plus at
/// most one straddling the seam.
proof fn lemma_separator_count_concat(a: Seq<char>, b: Seq<char>)
    ensures
        separator_count(a + b) == separator_count(a) + separator_count(b) + straddling_count(a, b),
    decreases a.len(),
{
    if a.len() == 0 {
        assert(a + b =~= b);
    } else {
        assert((a + b).drop_first() =~= a.drop_first() + b);
        lemma_separator_count_concat(a.drop_first(), b);
        if a.len() == 1 {
            if b.len() == 0 {
                assert(a + b =~= a);
            } else {
                assert((a + b)[0] == a[0] && (a + b)[1] == b[0]);
            }
        } else {
            assert((a + b)[0] == a[0] && (a + b)[1] == a[1]);
            assert(a.drop_first().last() == a.last());
        }
    }
}

/// The separator itself contains exactly one occurrence of the separator.
proof fn lemma_separator_count_of_separator()
    ensures
        separator_count(separator()) == 1,
{
    assert(separator().drop_first() =~= seq![' ']);
    assert(separator_count(seq![' ']) == 0);
    assert(separator_count(separator()) == 1nat + separator_count(separator().drop_first()));
}

/// Appending one more element extends the join by a separator and that
/// element, except that the first element is appended bare.
proof fn lemma_join_push(elems: Seq<Seq<char>>, e: Seq<char>)
    ensures
        join_with_separator(elems.push(e)) == if elems.len() == 0 {
            e
        } else {
            join_with_separator(elems) + separator() + e
        },
    decreases elems.len(),
{
    if elems.len() == 0 {
        assert(elems.push(e)[0] == e);
    } else {
        assert(elems.push(e).drop_first() =~= elems.drop_first().push(e));
        lemma_join_push(elems.drop_first(), e);
        if elems.len() == 1 {
            assert(elems.push(e)[0] == elems[0]);
        } else {
            assert(elems[0] + separator() + (join_with_separator(elems.drop_first()) + separator()
                + e) =~= (elems[0] + separator() + join_with_separator(elems.drop_first()))
                + separator() + e);
        }
    }
}

/// Counting law for the join, with no assumption on the elements: the join of
/// `n >= 1` elements contains exactly `n - 1` separator occurrences beyond
/// those already embedded in the elements themselves, and the join of zero
/// elements contains none. No occurrence ever straddles a seam, because the
/// separator neither starts with a space nor ends with a comma.
pub proof fn lemma_join_separator_count(elems: Seq<Seq<char>>)
    ensures
        elems.len() == 0 ==> separator_count(join_with_separator(elems)) == 0,
        elems.len() > 0 ==> separator_count(join_with_separator(elems))
            == embedded_separator_count(elems) + elems.len() - 1,
    decreases elems.len(),
{
    if elems.len() == 1 {
        assert(join_with_separator(elems) == elems[0]);
        assert(embedded_separator_count(elems.drop_first()) == 0);
    } else if elems.len() >= 2 {
        let head = elems[0];
        let rest = join_with_separator(elems.drop_first());
        assert(join_with_separator(elems) == head + separator() + rest);
        assert(embedded_separator_count(elems) == separator_count(head)
            + embedded_separator_count(elems.drop_first()));
        lemma_separator_count_of_separator();
        assert(separator()[0] == ',' && separator()[1] == ' ');
        lemma_separator_count_concat(head, separator());
        assert(straddling_count(head, separator()) == 0);
        lemma_separator_count_concat(head + separator(), rest);
        assert((head + separator()).last() == ' ');
        assert(straddling_count(head + separator(), rest) == 0);
        lemma_join_separator_count(elems.drop_first());
    }
}

/// When no element contains the separator, the embedded count vanishes.
proof fn lemma_embedded_separator_count_zero(elems: Seq<Seq<char>>)
    requires
        forall|i: int| 0 <= i < elems.len() ==> separator_count(#[trigger] elems[i]) == 0,
    ensures
        embedded_separator_count(elems) == 0,
    decreases elems.len(),
{
    if elems.len() > 0 {
        assert(forall|i: int|
            0 <= i < elems.drop_first().len() ==> separator_count(
                #[trigger] elems.drop_first()[i],
            ) == 0);
        lemma_embedded_separator_count_zero(elems.drop_first());
    }
}

/// Counting law for separator-free elements: for every finite sequence of
/// elements none of which contains the separator, the number of separator
/// occurrences in the join is the number of elements minus one, and zero for
/// an empty sequence. An element that itself contains ", " is joined verbatim
/// and adds its own occurrences, so such elements are excluded here; the
/// unconditional account is `lemma_join_separator_count`.
pub proof fn lemma_join_separator_count_separator_free(elems: Seq<Seq<char>>)
    requires
        forall|i: int| 0 <= i < elems.len() ==> separator_count(#[trigger] elems[i]) == 0,
    ensures
        separator_count(join_with_separator(elems)) == if elems.len() == 0 {
            0int
        } else {
            elems.len() - 1
        },
{
    lemma_embedded_separator_count_zero(elems);
    lemma_join_separator_count(elems);
}

/// Determinism of the join at the level of the model: equal input sequences
/// give equal output, so two calls of `join_strings` or `join_string_values`
/// on inputs with equal contents return strings with equal views.
pub proof fn lemma_join_deterministic(a: Seq<Seq<char>>, b: Seq<Seq<char>>)
    requires
        a == b,
    ensures
        join_with_separator(a) == join_with_separator(b),
{
}

/// Joins the given string slices into one new string, inserting ", " between
/// consecutive elements: no separator for zero or one element, and never one
/// at the start or the end. Accepts any borrowed slice, so both a fixed-size
/// array and a growable vector of string slices coerce into it.
pub fn join_strings(strings: &[&str]) -> (result: String)
    ensures
        result@ == join_with_separator(views_of(strings@)),
{
    let ghost elems = views_of(strings@);
    let mut result = String::new();
    let mut i: usize = 0;
    while i < strings.len()
        invariant
            i <= strings.len(),
            elems == views_of(strings@),
            elems.len() == strings@.len(),
            result@ == join_with_separator(elems.take(i as int)),
        decreases strings.len() - i,
    {
        if i > 0 {
            result.append(", ");
        }
        result.append(strings[i]);
        proof {
            reveal_strlit(", ");
            assert(", "@ =~= separator());
            lemma_join_push(elems.take(i as int), elems[i as int]);
            assert(elems.take(i as int).push(elems[i as int]) =~= elems.take(i as int + 1));
            if i == 0 {
                assert(Seq::<char>::empty() + elems[0] =~= elems[0]);
            }
        }
        i = i + 1;
    }
    proof {
        assert(elems.take(strings@.len() as int) =~= elems);
    }
    result
}

/// Joins owned strings exactly as `join_strings` joins string slices: the
/// result is determined by the elements' character sequences alone, so the
/// shape of the container holding them does not affect it.
pub fn join_string_values(strings: &[String]) -> (result: String)
    ensures
        result@ == join_with_separator(owned_views_of(strings@)),
{
    let mut refs: Vec<&str> = Vec::new();
    let mut i: usize = 0;
    while i < strings.len()
        invariant
            i <= strings.len(),
            refs@.len() == i,
            forall|j: int| 0 <= j < i ==> #[trigger] refs@[j]@ == strings@[j]@,
        decreases strings.len() - i,
    {
        refs.push(strings[i].as_str());
        i = i + 1;
    }
    let result = join_strings(refs.as_slice());
    proof {
        assert(views_of(refs@) =~= owned_views_of(strings@));
    }
    result
}

} // verus!
