//! Serialization of the observed-attribute list.
//!
//! The registrar hands the host a single string, the attribute names joined
//! with `':'`; the generated element class splits that string again on the
//! receiving side. The round trip reproduces the original list as long as
//! the list is non-empty and no name itself contains the delimiter.

use vstd::prelude::*;

use crate::model::names_view;
use crate::model::strings_view;

verus! {

/// The delimiter-joined form of a list of names: the names in order, with
/// one `':'` between each pair of neighbours.
pub open spec fn spec_join(names: Seq<Seq<char>>) -> Seq<char>
    decreases names.len(),
{
    if names.len() == 0 {
        Seq::empty()
    } else if names.len() == 1 {
        names[0]
    } else {
        names[0] + seq![':'] + spec_join(names.skip(1))
    }
}

/// Splitting a string at every `':'`: always at least one piece, and one
/// more piece than there are delimiters.
pub open spec fn spec_split(s: Seq<char>) -> Seq<Seq<char>>
    decreases s.len(),
{
    if s.len() == 0 {
        seq![Seq::<char>::empty()]
    } else if s[0] == ':' {
        seq![Seq::<char>::empty()] + spec_split(s.skip(1))
    } else {
        let rest = spec_split(s.skip(1));
        seq![seq![s[0]] + rest[0]] + rest.skip(1)
    }
}

/// No name of the list contains the delimiter.
pub open spec fn delimiter_free(names: Seq<Seq<char>>) -> bool {
    forall|i: int| 0 <= i < names.len() ==> !names[i].contains(':')
}

/// A string without the delimiter splits into exactly itself.
proof fn lemma_split_delimiter_free(s: Seq<char>)
    requires
        forall|j: int| 0 <= j < s.len() ==> s[j] != ':',
    ensures
        spec_split(s) == seq![s],
    decreases s.len(),
{
    if s.len() == 0 {
        assert(spec_split(s) =~~= seq![s]);
    } else {
        lemma_split_delimiter_free(s.skip(1));
        let rest = spec_split(s.skip(1));
        assert(rest == seq![s.skip(1)]);
        assert(seq![s[0]] + rest[0] =~= s);
        assert(rest.skip(1) =~= Seq::<Seq<char>>::empty());
        assert(spec_split(s) =~= seq![s]);
    }
}

/// Splitting a string whose first delimiter stands at position `k` takes
/// off the prefix before it as the first piece.
proof fn lemma_split_until_delimiter(s: Seq<char>, k: int)
    requires
        0 <= k < s.len(),
        s[k] == ':',
        forall|j: int| 0 <= j < k ==> s[j] != ':',
    ensures
        spec_split(s) == seq![s.take(k)] + spec_split(s.skip(k + 1)),
    decreases k,
{
    if k == 0 {
        assert(s.take(0) =~= Seq::<char>::empty());
        assert(spec_split(s) =~= seq![s.take(0)] + spec_split(s.skip(1)));
    } else {
        lemma_split_until_delimiter(s.skip(1), k - 1);
        let rest = spec_split(s.skip(1));
        assert(s.skip(1).skip(k) =~= s.skip(k + 1));
        assert(rest == seq![s.skip(1).take(k - 1)] + spec_split(s.skip(k + 1)));
        assert(seq![s[0]] + rest[0] =~= s.take(k));
        assert(rest.skip(1) =~= spec_split(s.skip(k + 1)));
        assert(spec_split(s) =~= seq![s.take(k)] + spec_split(s.skip(k + 1)));
    }
}

/// Appending one more name to a non-empty list appends one delimiter and
/// the name to the joined form.
proof fn lemma_join_push(names: Seq<Seq<char>>, x: Seq<char>)
    requires
        names.len() >= 1,
    ensures
        spec_join(names.push(x)) == spec_join(names) + seq![':'] + x,
    decreases names.len(),
{
    if names.len() == 1 {
        assert(names.push(x).skip(1) =~= seq![x]);
        assert(spec_join(seq![x]) == x);
        assert(names.push(x)[0] == names[0]);
        assert(spec_join(names.push(x)) == names[0] + seq![':'] + x);
    } else {
        lemma_join_push(names.skip(1), x);
        assert(names.push(x).skip(1) =~= names.skip(1).push(x));
        assert(spec_join(names.push(x)) == names[0] + seq![':'] + (spec_join(names.skip(1))
            + seq![':'] + x));
        assert(names[0] + seq![':'] + (spec_join(names.skip(1)) + seq![':'] + x) =~= (names[0]
            + seq![':'] + spec_join(names.skip(1))) + seq![':'] + x);
    }
}

/// The round trip: splitting the joined form of a non-empty list of
/// delimiter-free names reproduces the list exactly. A name that contains
/// the delimiter, or an empty list, falls outside this law: the split side
/// then produces a different list.
pub proof fn lemma_split_join_round_trip(names: Seq<Seq<char>>)
    requires
        names.len() >= 1,
        delimiter_free(names),
    ensures
        spec_split(spec_join(names)) == names,
    decreases names.len(),
{
    if names.len() == 1 {
        assert(!names[0].contains(':'));
        assert(forall|j: int| 0 <= j < names[0].len() ==> names[0][j] != ':') by {
            assert(forall|j: int|
                0 <= j < names[0].len() && names[0][j] == ':' ==> names[0].contains(':'));
        }
        lemma_split_delimiter_free(names[0]);
        assert(spec_split(spec_join(names)) =~= names);
    } else {
        let s = spec_join(names);
        let head = names[0];
        let k = head.len() as int;
        assert(s == head + seq![':'] + spec_join(names.skip(1)));
        assert(s[k] == ':');
        assert(!head.contains(':'));
        assert(forall|j: int| 0 <= j < k ==> s[j] != ':') by {
            assert(forall|j: int| 0 <= j < k && head[j] == ':' ==> head.contains(':'));
            assert(forall|j: int| 0 <= j < k ==> s[j] == head[j]);
        }
        lemma_split_until_delimiter(s, k);
        assert(s.take(k) =~= head);
        assert(s.skip(k + 1) =~= spec_join(names.skip(1)));
        assert(delimiter_free(names.skip(1)));
        lemma_split_join_round_trip(names.skip(1));
        assert(seq![head] + names.skip(1) =~= names);
    }
}

/// The serialized observed-attribute list: the names joined with `':'`,
/// exactly as the registrar hands it to the host environment.
pub fn join_attributes(names: &Vec<&'static str>) -> (r: String)
    ensures
        r@ == spec_join(names_view(names@)),
{
    let mut r = String::new();
    let mut i: usize = 0;
    while i < names.len()
        invariant
            0 <= i <= names@.len(),
            r@ == spec_join(names_view(names@).take(i as int)),
        decreases names@.len() - i,
    {
        proof {
            reveal_strlit(":");
        }
        if i > 0 {
            r.append(":");
        }
        r.append(names[i]);
        proof {
            let nv = names_view(names@);
            assert(":"@ =~= seq![':']);
            assert(nv.take(i as int).push(nv[i as int]) =~= nv.take(i as int + 1));
            if i > 0 {
                lemma_join_push(nv.take(i as int), nv[i as int]);
            } else {
                assert(nv.take(1) =~= seq![nv[0]]);
                assert(spec_join(seq![nv[0]]) == nv[0]);
            }
        }
        i += 1;
    }
    proof {
        assert(names_view(names@).take(names@.len() as int) =~= names_view(names@));
    }
    r
}

/// The receiving side of the serialization: the string split at every
/// `':'`, as the generated element class computes its observed list.
pub fn split_attributes(s: &str) -> (r: Vec<String>)
    ensures
        strings_view(r@) == spec_split(s@),
{
    let n = s.unicode_len();
    let mut out: Vec<String> = Vec::new();
    let mut start: usize = 0;
    let mut i: usize = 0;
    proof {
        assert(s@.skip(0) =~= s@);
        assert(strings_view(out@) =~= Seq::<Seq<char>>::empty());
        assert(spec_split(s@) =~= strings_view(out@) + spec_split(s@.skip(0)));
    }
    while i < n
        invariant
            0 <= start <= i <= n,
            n == s@.len(),
            forall|j: int| start <= j < i ==> s@[j] != ':',
            spec_split(s@) == strings_view(out@) + spec_split(s@.skip(start as int)),
        decreases n - i,
    {
        let c = s.get_char(i);
        if c == ':' {
            let ghost out0 = out@;
            let piece = s.substring_char(start, i);
            out.push(piece.to_owned());
            proof {
                let t = s@.skip(start as int);
                let k = i - start;
                assert(t[k] == ':');
                assert(forall|j: int| 0 <= j < k ==> t[j] != ':') by {
                    assert(forall|j: int| 0 <= j < k ==> t[j] == s@[start + j]);
                }
                lemma_split_until_delimiter(t, k);
                assert(t.take(k) =~= s@.subrange(start as int, i as int));
                assert(t.skip(k + 1) =~= s@.skip(i + 1));
                assert(strings_view(out@) =~= strings_view(out0) + seq![t.take(k)]);
                assert(spec_split(s@) =~= strings_view(out@) + spec_split(s@.skip(i + 1)));
            }
            start = i + 1;
        }
        i += 1;
    }
    let ghost out0 = out@;
    let piece = s.substring_char(start, n);
    out.push(piece.to_owned());
    proof {
        let t = s@.skip(start as int);
        assert(forall|j: int| 0 <= j < t.len() ==> t[j] != ':') by {
            assert(forall|j: int| 0 <= j < t.len() ==> t[j] == s@[start + j]);
        }
        lemma_split_delimiter_free(t);
        assert(t =~= s@.subrange(start as int, n as int));
        assert(strings_view(out@) =~= strings_view(out0) + seq![t]);
        assert(strings_view(out@) =~= spec_split(s@));
    }
    out
}

} // verus!
