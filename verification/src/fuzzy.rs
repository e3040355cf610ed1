//! Fuzzy ranking of texts against a query.
use nucleo_matcher::pattern::{CaseMatching, Normalization, Pattern};
use nucleo_matcher::{Config, Matcher, Utf32Str};
use vstd::prelude::*;
use vstd::relations::*;
use vstd::string::*;
use crate::offsets;
use crate::order;
use crate::order::Order;
use crate::text;
use crate::text::chars_of;

verus! {

/// The longest needle that every text can be scored against, in characters: the
/// first one scores at most 36 and every other one at most 26, and the matcher
/// counts in 16 bits.
pub const MAX_NEEDLE: usize = 2520;

/// The longest query that can be scored, in characters. Each of them stands for
/// at most two in a needle, and the scores of the needles are added up in 32
/// bits.
pub const MAX_QUERY: usize = 59_652_323;

/// The longest text that can be scored, in bytes.
pub const MAX_TEXT: u64 = 0xffff_ffff;

/// Only ASCII characters.
pub open spec fn all_ascii(s: Seq<char>) -> bool {
    forall|i: int| 0 <= i < s.len() ==> (#[trigger] s[i] as int) < 128
}

/// How many backslashes a text holds.
pub open spec fn backslashes(s: Seq<char>) -> nat
    decreases s.len(),
{
    if s.len() == 0 {
        0
    } else {
        backslashes(s.drop_last()) + if s.last() == '\\' {
            1nat
        } else {
            0
        }
    }
}

/// A query is broken up at the spaces that no backslash stands before.
pub open spec fn breaks(query: Seq<char>, i: int) -> bool {
    query[i] == ' ' && !(i > 0 && query[i - 1] == '\\')
}

/// What stands between two breaks of a query: an atom, which the matcher reads
/// one needle from.
pub open spec fn is_atom(query: Seq<char>, from: int, to: int) -> bool {
    &&& 0 <= from <= to <= query.len()
    &&& from == 0 || breaks(query, from - 1)
    &&& to == query.len() || breaks(query, to)
    &&& forall|k: int| from <= k < to ==> !#[trigger] breaks(query, k)
}

/// The greatest length of the needle that an atom holds. In an atom that is not
/// ASCII the matcher may double the backslashes.
pub open spec fn needle_most(atom: Seq<char>) -> nat {
    if all_ascii(atom) {
        atom.len()
    } else {
        atom.len() + backslashes(atom)
    }
}

/// The least length of the needle that an atom holds. The matcher takes out two
/// marks in front, one at the end, and backslashes. Of an atom that is not
/// ASCII it may leave any part.
pub open spec fn needle_least(atom: Seq<char>) -> int {
    if all_ascii(atom) {
        atom.len() - 3 - backslashes(atom)
    } else {
        0
    }
}

/// No score of an atom's needle is too large: the needle is short, or no match
/// of the text, which is shorter than the needle, or ASCII where the needle is
/// not.
pub open spec fn score_is_small(atom: Seq<char>, hay: Seq<char>) -> bool {
    ||| needle_most(atom) <= MAX_NEEDLE
    ||| offsets::byte_len(hay) <= MAX_NEEDLE
    ||| offsets::byte_len(hay) < needle_least(atom)
    ||| all_ascii(hay) && !all_ascii(atom)
}

/// A character in one of the ranges in which the matcher knows Latin letters
/// with marks. A needle that holds such a letter is matched as it is written.
pub open spec fn may_be_marked(c: char) -> bool {
    let u = c as int;
    ||| 0xc0 <= u <= 0x36f
    ||| 0x1d00 <= u <= 0x1ef1
    ||| 0x2071 <= u <= 0x2184
}

/// The number of what case folding makes of a lower-case character. Few of them
/// change.
pub open spec fn lower_folded(c: char) -> int {
    let u = c as int;
    if u == 0xb5 {
        0x3bc
    } else if u == 0x17f {
        0x73
    } else if u == 0x345 {
        0x3b9
    } else if u == 0x3c2 {
        0x3c3
    } else if u == 0x3d0 {
        0x3b2
    } else if u == 0x3d1 {
        0x3b8
    } else if u == 0x3d5 {
        0x3c6
    } else if u == 0x3d6 {
        0x3c0
    } else if u == 0x3f0 {
        0x3ba
    } else if u == 0x3f1 {
        0x3c1
    } else if u == 0x3f5 {
        0x3b5
    } else if 0x13f8 <= u <= 0x13fd {
        u - 8
    } else if u == 0x1c80 {
        0x432
    } else if u == 0x1c81 {
        0x434
    } else if u == 0x1c82 {
        0x43e
    } else if u == 0x1c83 {
        0x441
    } else if 0x1c84 <= u <= 0x1c85 {
        0x442
    } else if u == 0x1c86 {
        0x44a
    } else if u == 0x1c87 {
        0x463
    } else if u == 0x1c88 {
        0xa64b
    } else if u == 0x1e9b {
        0x1e61
    } else if u == 0x1fbe {
        0x3b9
    } else if 0xab70 <= u <= 0xabbf {
        u - 0x97d0
    } else {
        u
    }
}

/// The matcher finds the first character of a needle where it looks for it. It
/// folds lower-case characters to find it and not to score it, where the needle
/// is matched as it is written.
pub open spec fn first_is_found(atom: Seq<char>, hay: Seq<char>) -> bool {
    (exists|k: int| 0 <= k < atom.len() && may_be_marked(#[trigger] atom[k])) ==> forall|i: int|
        0 <= i < hay.len() ==> lower_folded(#[trigger] hay[i]) == hay[i] as int || lower_folded(
            hay[i],
        ) != atom[0] as int
}

/// An atom of a query and a text that the matcher can score.
pub open spec fn atom_fits(atom: Seq<char>, hay: Seq<char>) -> bool {
    score_is_small(atom, hay) && first_is_found(atom, hay)
}

/// A query and a text that the matcher can score: the score, the text and the
/// product of the longest needle and the text stay within its numbers, and the
/// atoms of the query fit the text.
pub open spec fn fits(query: Seq<char>, hay: Seq<char>) -> bool {
    &&& query.len() <= MAX_QUERY
    &&& offsets::byte_len(hay) <= MAX_TEXT
    &&& offsets::byte_len(hay) * 2520 <= usize::MAX
    &&& forall|from: int, to: int| #[trigger]
        is_atom(query, from, to) ==> atom_fits(query.subrange(from, to), hay)
}

/// Whether the matcher can score a text against a query.
pub fn can_score(query: &str, hay: &str) -> (r: bool)
    ensures
        r == fits(query@, hay@),
{
    let q: Vec<char> = chars_of(query);
    let h: Vec<char> = chars_of(hay);
    let bytes: usize = hay.as_bytes().len();
    let cells: u128 = bytes as u128 * 2520;
    if q.len() > MAX_QUERY || bytes as u64 > MAX_TEXT || cells > usize::MAX as u128 {
        return false;
    }
    let mut fit: bool = true;
    let mut atom: Vec<char> = Vec::new();
    let ghost mut from: int = 0;
    let mut i: usize = 0;
    while i <= q.len()
        invariant
            i <= q.len() + 1,
            q.len() <= MAX_QUERY,
            h@ == hay@,
            bytes == offsets::byte_len(h@),
            0 <= from,
            i <= q.len() ==> from <= i && atom@ == q@.subrange(from, i as int),
            i <= q.len() ==> from == 0 || breaks(q@, from - 1),
            forall|k: int| from <= k < i && k < q.len() ==> !#[trigger] breaks(q@, k),
            fit <==> forall|a: int, b: int| #[trigger]
                is_atom(q@, a, b) && b < i ==> atom_fits(q@.subrange(a, b), h@),
        decreases q.len() + 1 - i,
    {
        let end: bool = i == q.len() || (q[i] == ' ' && !(i > 0 && q[i - 1] == '\\'));
        if end {
            let here: bool = can_score_atom(&atom, &h, bytes);
            proof {
                assert(is_atom(q@, from, i as int));
                assert forall|a: int, b: int| #[trigger]
                    is_atom(q@, a, b) && b < i + 1 && b >= i implies a == from by {
                    if a < from {
                        assert(breaks(q@, from - 1));
                    } else if from < a {
                        assert(breaks(q@, a - 1));
                    }
                }
                from = i + 1;
            }
            fit = fit && here;
            atom = Vec::new();
            assert(i < q.len() ==> atom@ =~= q@.subrange(from, i + 1));
        } else {
            atom.push(q[i]);
            proof {
                assert(!breaks(q@, i as int));
                assert(atom@ =~= q@.subrange(from, i + 1));
                assert forall|a: int, b: int| #[trigger] is_atom(q@, a, b) implies b != i by {}
            }
        }
        i += 1;
    }
    assert(forall|a: int, b: int| #[trigger] is_atom(q@, a, b) ==> b < i);
    fit
}

/// Whether the matcher can score a text of so many bytes against an atom.
fn can_score_atom(atom: &Vec<char>, hay: &Vec<char>, bytes: usize) -> (r: bool)
    requires
        bytes == offsets::byte_len(hay@),
        atom.len() <= MAX_QUERY,
    ensures
        r == atom_fits(atom@, hay@),
{
    let ascii: bool = is_all_ascii(atom);
    let marks: usize = count_backslashes(atom);
    let small: bool = if ascii {
        atom.len() <= MAX_NEEDLE || bytes <= MAX_NEEDLE || (bytes as u128) + 3 + (marks as u128)
            < atom.len() as u128
    } else {
        atom.len() + marks <= MAX_NEEDLE || bytes <= MAX_NEEDLE || is_all_ascii(hay)
    };
    small && finds_first(atom, hay)
}

fn is_all_ascii(s: &Vec<char>) -> (r: bool)
    ensures
        r == all_ascii(s@),
{
    let mut i: usize = 0;
    while i < s.len()
        invariant
            i <= s.len(),
            forall|k: int| 0 <= k < i ==> (#[trigger] s@[k] as int) < 128,
        decreases s.len() - i,
    {
        if char_number(s[i]) >= 128 {
            assert(!((s@[i as int] as int) < 128));
            return false;
        }
        i += 1;
    }
    true
}

fn count_backslashes(s: &Vec<char>) -> (r: usize)
    ensures
        r == backslashes(s@),
        r <= s.len(),
{
    let mut n: usize = 0;
    let mut i: usize = 0;
    assert(s@.take(0) =~= Seq::empty());
    while i < s.len()
        invariant
            i <= s.len(),
            n == backslashes(s@.take(i as int)),
            n <= i,
        decreases s.len() - i,
    {
        assert(s@.take(i + 1).drop_last() =~= s@.take(i as int));
        if s[i] == '\\' {
            n += 1;
        }
        i += 1;
    }
    assert(s@.take(i as int) =~= s@);
    n
}

/// Whether the matcher finds the first character of an atom's needle where it
/// looks for it.
fn finds_first(atom: &Vec<char>, hay: &Vec<char>) -> (r: bool)
    ensures
        r == first_is_found(atom@, hay@),
{
    let mut marked: bool = false;
    let mut i: usize = 0;
    while i < atom.len()
        invariant
            i <= atom.len(),
            marked <==> exists|k: int| 0 <= k < i && may_be_marked(#[trigger] atom@[k]),
        decreases atom.len() - i,
    {
        if has_marked_number(atom[i]) {
            assert(may_be_marked(atom@[i as int]));
            marked = true;
        }
        i += 1;
    }
    if !marked {
        return true;
    }
    let first: u32 = char_number(atom[0]);
    let mut i: usize = 0;
    while i < hay.len()
        invariant
            i <= hay.len(),
            exists|k: int| 0 <= k < atom.len() && may_be_marked(#[trigger] atom@[k]),
            first == atom@[0] as int,
            forall|k: int|
                0 <= k < i ==> lower_folded(#[trigger] hay@[k]) == hay@[k] as int || lower_folded(
                    hay@[k],
                ) != atom@[0] as int,
        decreases hay.len() - i,
    {
        let folded: u32 = lower_fold(hay[i]);
        if folded != char_number(hay[i]) && folded == first {
            assert(lower_folded(hay@[i as int]) != hay@[i as int] as int);
            return false;
        }
        i += 1;
    }
    true
}

fn char_number(c: char) -> (r: u32)
    ensures
        r == c as int,
{
    c as u32
}

fn has_marked_number(c: char) -> (r: bool)
    ensures
        r == may_be_marked(c),
{
    let u: u32 = c as u32;
    (0xc0 <= u && u <= 0x36f) || (0x1d00 <= u && u <= 0x1ef1) || (0x2071 <= u && u <= 0x2184)
}

/// The number of what case folding makes of a lower-case character.
fn lower_fold(c: char) -> (r: u32)
    ensures
        r == lower_folded(c),
{
    let u: u32 = c as u32;
    match u {
        0xb5 => 0x3bc,
        0x17f => 0x73,
        0x345 => 0x3b9,
        0x3c2 => 0x3c3,
        0x3d0 => 0x3b2,
        0x3d1 => 0x3b8,
        0x3d5 => 0x3c6,
        0x3d6 => 0x3c0,
        0x3f0 => 0x3ba,
        0x3f1 => 0x3c1,
        0x3f5 => 0x3b5,
        0x1c80 => 0x432,
        0x1c81 => 0x434,
        0x1c82 => 0x43e,
        0x1c83 => 0x441,
        0x1c84 => 0x442,
        0x1c85 => 0x442,
        0x1c86 => 0x44a,
        0x1c87 => 0x463,
        0x1c88 => 0xa64b,
        0x1e9b => 0x1e61,
        0x1fbe => 0x3b9,
        _ => if 0x13f8 <= u && u <= 0x13fd {
            u - 8
        } else if 0xab70 <= u && u <= 0xabbf {
            u - 0x97d0
        } else {
            u
        },
    }
}

/// The score of a text against a query, `None` where it does not match.
pub uninterp spec fn fuzzy_score(query: Seq<char>, hay: Seq<char>) -> Option<u32>;

/// `nucleo_matcher::pattern::Pattern::score`, for the pattern that
/// `Pattern::parse` reads from the query with smart case and smart
/// normalization, and a matcher in its default configuration. The score
/// depends on the query and the text alone. The matcher does not panic on a
/// query and a text that fit.
#[verifier::external_body]
fn score(query: &str, hay: &str) -> (r: Option<u32>)
    requires
        fits(query@, hay@),
    ensures
        r == fuzzy_score(query@, hay@),
{
    let mut matcher = Matcher::new(Config::DEFAULT);
    let pattern = Pattern::parse(query, CaseMatching::Smart, Normalization::Smart);
    let mut buf = Vec::new();
    pattern.score(Utf32Str::new(hay, &mut buf), &mut matcher)
}

/// The higher score comes first; equal scores stay in order.
pub open spec fn score_leq(scores: Seq<Option<u32>>, i: int, j: int) -> bool {
    let a = scores[i]->0;
    let b = scores[j]->0;
    a > b || (a == b && i <= j)
}

/// The places of the matches, the best first.
pub open spec fn ranked(scores: Seq<Option<u32>>) -> Seq<int> {
    order::below(scores.len()).filter(|i: int| scores[i] is Some).sort_by(
        |i: int, j: int| score_leq(scores, i, j),
    )
}

/// The scores of texts against a query.
pub open spec fn scores_of(items: Seq<Seq<char>>, query: Seq<char>) -> Seq<Option<u32>> {
    Seq::new(items.len(), |i: int| fuzzy_score(query, items[i]))
}

/// The places of the texts that match a query, the best first. The empty query
/// matches everything, and keeps the order.
pub open spec fn ranking(items: Seq<Seq<char>>, query: Seq<char>) -> Seq<int> {
    if query.len() == 0 {
        order::below(items.len())
    } else {
        ranked(scores_of(items, query))
    }
}

proof fn lemma_score_total(scores: Seq<Option<u32>>)
    ensures
        total_ordering(|i: int, j: int| score_leq(scores, i, j)),
{
}

struct ScoreOrder<'a> {
    scores: &'a Vec<Option<u32>>,
}

impl<'a> Order for ScoreOrder<'a> {
    closed spec fn valid(&self, i: int) -> bool {
        0 <= i < self.scores@.len() && self.scores@[i] is Some
    }

    closed spec fn leq(&self, i: int, j: int) -> bool {
        score_leq(self.scores@, i, j)
    }

    proof fn lemma_total(&self) {
        lemma_score_total(self.scores@);
        assert((|i: int, j: int| self.leq(i, j)) =~= (|i: int, j: int|
            score_leq(self.scores@, i, j)));
    }

    fn at_most(&self, i: usize, j: usize) -> (r: bool) {
        match (self.scores[i], self.scores[j]) {
            (Some(a), Some(b)) => a > b || (a == b && i <= j),
            _ => false,
        }
    }
}

/// The places of the matches among scored texts, the best first.
pub fn rank_scores(scores: &Vec<Option<u32>>) -> (r: Vec<usize>)
    ensures
        order::ints(r@) == ranked(scores@),
{
    let ghost keep = |i: int| scores@[i] is Some;
    let mut kept: Vec<usize> = Vec::new();
    let mut i: usize = 0;
    proof {
        reveal(Seq::filter);
        assert(order::ints(kept@) =~= order::below(0).filter(keep));
    }
    while i < scores.len()
        invariant
            i <= scores.len(),
            keep == (|i: int| scores@[i] is Some),
            order::ints(kept@) == order::below(i as nat).filter(keep),
            forall|k: int|
                0 <= k < kept@.len() ==> (#[trigger] kept@[k]) < scores@.len()
                    && scores@[kept@[k] as int] is Some,
        decreases scores.len() - i,
    {
        proof {
            assert(order::below((i + 1) as nat) =~= order::below(i as nat).push(i as int));
            order::below(i as nat).lemma_filter_push(i as int, keep);
        }
        let ghost prior = order::ints(kept@);
        if scores[i].is_some() {
            kept.push(i);
            assert(order::ints(kept@) =~= prior.push(i as int));
        }
        i += 1;
    }
    let o = ScoreOrder { scores };
    proof {
        assert forall|k: int| 0 <= k < kept.len() implies #[trigger] o.valid(kept[k] as int) by {
            assert(kept@[k] < scores@.len());
        }
    }
    let r: Vec<usize> = order::sort(&o, &kept);
    proof {
        assert((|i: int, j: int| o.leq(i, j)) =~= (|i: int, j: int| score_leq(scores@, i, j)));
    }
    r
}

/// Ranks `items` against `query`: the indices of the items that match, by
/// descending score. An empty query gives all indices in order.
pub fn rank(items: &[&str], query: &str) -> (r: Vec<usize>)
    requires
        query@.len() > 0 ==> forall|i: int|
            0 <= i < items@.len() ==> fits(query@, (#[trigger] items@[i])@),
    ensures
        order::ints(r@) == ranking(text::texts(items@), query@),
{
    let n: usize = items.len();
    if query.is_empty() {
        let r: Vec<usize> = order::indices(n);
        assert(text::texts(items@).len() == n);
        return r;
    }
    let mut scores: Vec<Option<u32>> = Vec::new();
    let mut i: usize = 0;
    while i < n
        invariant
            i <= n,
            n == items@.len(),
            forall|i: int| 0 <= i < items@.len() ==> fits(query@, (#[trigger] items@[i])@),
            scores@.len() == i,
            forall|k: int| 0 <= k < i ==> #[trigger] scores@[k] == fuzzy_score(query@, items@[k]@),
        decreases n - i,
    {
        assert(fits(query@, items@[i as int]@));
        scores.push(score(query, items[i]));
        i += 1;
    }
    assert(scores@ =~= scores_of(text::texts(items@), query@));
    rank_scores(&scores)
}

/// A ranking holds exactly the texts that match, each once. A better score
/// always comes first, and equal scores stay in order.
pub proof fn law_ranking(items: Seq<Seq<char>>, query: Seq<char>)
    requires
        query.len() > 0,
    ensures
        ({
            let r = ranking(items, query);
            &&& r.no_duplicates()
            &&& forall|i: int|
                #[trigger] r.contains(i) <==> 0 <= i < items.len() && fuzzy_score(
                    query,
                    items[i],
                ) is Some
            &&& forall|k: int, l: int|
                0 <= k < l < r.len() ==> {
                    let a = fuzzy_score(query, items[#[trigger] r[k]])->0;
                    let b = fuzzy_score(query, items[#[trigger] r[l]])->0;
                    a > b || (a == b && r[k] < r[l])
                }
        }),
{
    let scores = scores_of(items, query);
    let keep = |i: int| scores[i] is Some;
    let leq = |i: int, j: int| score_leq(scores, i, j);
    let kept = order::below(scores.len()).filter(keep);
    let r = ranking(items, query);
    lemma_score_total(scores);
    order::lemma_kept(scores.len(), keep);
    order::lemma_rearranged(kept, leq);
    assert forall|i: int| #[trigger] r.contains(i) <==> 0 <= i < items.len() && fuzzy_score(
        query,
        items[i],
    ) is Some by {
        assert(kept.contains(i) <==> 0 <= i < scores.len() && keep(i));
    }
    assert forall|k: int, l: int| 0 <= k < l < r.len() implies ({
        let a = fuzzy_score(query, items[#[trigger] r[k]])->0;
        let b = fuzzy_score(query, items[#[trigger] r[l]])->0;
        a > b || (a == b && r[k] < r[l])
    }) by {
        assert(r.contains(r[k]) && r.contains(r[l]));
        assert(leq(r[k], r[l]));
        assert(r[k] != r[l]);
    }
}

/// The empty query keeps every text in its place.
pub proof fn law_empty_query(items: Seq<Seq<char>>)
    ensures
        ranking(items, Seq::empty()) == order::below(items.len()),
{
}

proof fn lemma_backslashes_are_characters(s: Seq<char>)
    ensures
        backslashes(s) <= s.len(),
    decreases s.len(),
{
    if s.len() > 0 {
        lemma_backslashes_are_characters(s.drop_last());
    }
}

/// A query of some hundred characters, without letters that carry marks, can be
/// scored against every text of up to a million bytes.
pub proof fn law_ordinary_queries_fit(query: Seq<char>, hay: Seq<char>)
    requires
        query.len() <= 1260,
        forall|i: int| 0 <= i < query.len() ==> !may_be_marked(#[trigger] query[i]),
        offsets::byte_len(hay) <= 1_000_000,
    ensures
        fits(query, hay),
{
    assert forall|from: int, to: int| #[trigger] is_atom(query, from, to) implies atom_fits(
        query.subrange(from, to),
        hay,
    ) by {
        let atom = query.subrange(from, to);
        lemma_backslashes_are_characters(atom);
        assert forall|k: int| 0 <= k < atom.len() implies !may_be_marked(#[trigger] atom[k]) by {
            assert(atom[k] == query[from + k]);
        }
    }
}

/// ASCII letters carry no marks.
pub proof fn law_ascii_is_ordinary(c: char)
    requires
        (c as int) < 0xc0,
    ensures
        !may_be_marked(c),
        c as int != 0xb5 ==> lower_folded(c) == c as int,
{
}

} // verus!
