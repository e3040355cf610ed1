//! Text helpers shared by every module: trimming, splitting, decimal numbers,
//! ordering and padding, each stated over the sequence of characters.
use vstd::prelude::*;
use vstd::string::*;

verus! {

/// `str::eq`: two string slices are equal exactly when they hold the same
/// characters.
pub assume_specification[ <str as PartialEq>::eq ](a: &str, b: &str) -> (r: bool)
    ensures
        r == (a@ == b@),
;

/// `String::push`: appends one character at the end.
pub assume_specification[ String::push ](s: &mut String, c: char)
    ensures
        final(s)@ == old(s)@.push(c),
;

// ---------------------------------------------------------------------------
// Characters
// ---------------------------------------------------------------------------

/// The Unicode `White_Space` property.
pub open spec fn is_white_space(c: char) -> bool {
    let u = c as int;
    ||| 0x09 <= u <= 0x0d
    ||| u == 0x20
    ||| u == 0x85
    ||| u == 0xa0
    ||| u == 0x1680
    ||| 0x2000 <= u <= 0x200a
    ||| u == 0x2028
    ||| u == 0x2029
    ||| u == 0x202f
    ||| u == 0x205f
    ||| u == 0x3000
}

/// Tells whether `c` is white space in the Unicode sense.
pub fn white_space(c: char) -> (r: bool)
    ensures
        r == is_white_space(c),
        c == ' ' || c == '\t' || c == '\n' || c == '\r' ==> r,
        0x21 <= c as int <= 0x7e ==> !r,
{
    let u: u32 = c as u32;
    (0x09 <= u && u <= 0x0d) || u == 0x20 || u == 0x85 || u == 0xa0 || u == 0x1680 || (0x2000 <= u
        && u <= 0x200a) || u == 0x2028 || u == 0x2029 || u == 0x202f || u == 0x205f || u == 0x3000
}

/// ASCII white space: space, tab, line feed, form feed and carriage return.
pub open spec fn is_ascii_white_space(c: char) -> bool {
    c == ' ' || c == '\t' || c == '\n' || c == '\x0c' || c == '\r'
}

/// `c` in lower case when it is an ASCII letter, `c` itself otherwise.
pub open spec fn ascii_lower(c: char) -> char {
    if 65 <= c as int <= 90 {
        ((c as int) + 32) as char
    } else {
        c
    }
}

fn to_ascii_lower(c: char) -> (r: char)
    ensures
        r == ascii_lower(c),
{
    if c >= 'A' && c <= 'Z' {
        ((c as u8) + 32) as char
    } else {
        c
    }
}

/// The decimal digit characters.
pub open spec fn is_digit(c: char) -> bool {
    48 <= c as int <= 57
}

/// The value of a decimal digit character.
pub open spec fn digit_value(c: char) -> nat {
    ((c as int) - 48) as nat
}

/// The character for a digit below ten.
pub open spec fn digit_char(d: nat) -> char {
    (48 + d) as char
}

// ---------------------------------------------------------------------------
// Conversions between strings and character vectors
// ---------------------------------------------------------------------------

/// The characters of `s`, in order.
pub fn chars_of(s: &str) -> (r: Vec<char>)
    ensures
        r@ == s@,
{
    let mut out: Vec<char> = Vec::new();
    for c in it: s.chars()
        invariant
            out@ == it.seq().take(it.index()),
    {
        proof {
            assert(it.seq().take(it.index() + 1) =~= it.seq().take(it.index()).push(c));
        }
        out.push(c);
    }
    assert(s@.take(s@.len() as int) =~= s@);
    out
}

/// The string made of `v[from..to]`.
pub fn string_of(v: &Vec<char>, from: usize, to: usize) -> (r: String)
    requires
        from <= to <= v.len(),
    ensures
        r@ == v@.subrange(from as int, to as int),
{
    let mut out: String = String::new();
    let mut i: usize = from;
    while i < to
        invariant
            from <= i <= to <= v.len(),
            out@ == v@.subrange(from as int, i as int),
        decreases to - i,
    {
        out.push(v[i]);
        assert(v@.subrange(from as int, i + 1) =~= v@.subrange(from as int, i as int).push(
            v[i as int],
        ));
        i += 1;
    }
    out
}

// ---------------------------------------------------------------------------
// Trimming
// ---------------------------------------------------------------------------

/// `s` without its leading white space.
pub open spec fn trim_start(s: Seq<char>) -> Seq<char>
    decreases s.len(),
{
    if s.len() > 0 && is_white_space(s.first()) {
        trim_start(s.drop_first())
    } else {
        s
    }
}

/// `s` without its trailing white space.
pub open spec fn trim_end(s: Seq<char>) -> Seq<char>
    decreases s.len(),
{
    if s.len() > 0 && is_white_space(s.last()) {
        trim_end(s.drop_last())
    } else {
        s
    }
}

/// `s` without its leading and trailing white space.
pub open spec fn trimmed(s: Seq<char>) -> Seq<char> {
    trim_end(trim_start(s))
}

/// Only white space.
pub open spec fn all_white(s: Seq<char>) -> bool {
    forall|i: int| 0 <= i < s.len() ==> is_white_space(#[trigger] s[i])
}

/// A text without white space at its ends is trimmed already.
pub proof fn lemma_trimmed_whole(s: Seq<char>)
    requires
        s.len() > 0 ==> !is_white_space(s.first()) && !is_white_space(s.last()),
    ensures
        trimmed(s) == s,
{
}

proof fn lemma_trim_start_space(before: Seq<char>, s: Seq<char>)
    requires
        all_white(before),
    ensures
        trim_start(before + s) == trim_start(s),
    decreases before.len(),
{
    if before.len() == 0 {
        assert(before + s =~= s);
    } else {
        assert(is_white_space(before[0]));
        assert((before + s).drop_first() =~= before.drop_first() + s);
        assert forall|i: int| 0 <= i < before.drop_first().len() implies is_white_space(
            #[trigger] before.drop_first()[i],
        ) by {
            assert(is_white_space(before[i + 1]));
        }
        lemma_trim_start_space(before.drop_first(), s);
    }
}

proof fn lemma_trim_end_space(s: Seq<char>, after: Seq<char>)
    requires
        all_white(after),
    ensures
        trim_end(s + after) == trim_end(s),
    decreases after.len(),
{
    if after.len() == 0 {
        assert(s + after =~= s);
    } else {
        assert(is_white_space(after[after.len() - 1]));
        assert((s + after).drop_last() =~= s + after.drop_last());
        lemma_trim_end_space(s, after.drop_last());
    }
}

/// Trimming a text takes white space off both ends, all of it and nothing else.
pub proof fn law_trimming(s: Seq<char>) -> (r: (Seq<char>, Seq<char>))
    ensures
        s == r.0 + trimmed(s) + r.1,
        all_white(r.0),
        all_white(r.1),
        trimmed(s).len() > 0 ==> !is_white_space(trimmed(s).first()) && !is_white_space(
            trimmed(s).last(),
        ),
{
    let t = trim_start(s);
    let before = lemma_trim_start_splits(s);
    let after = lemma_trim_end_splits(t);
    assert(s =~= before + trimmed(s) + after);
    if trimmed(s).len() > 0 {
        assert(t.first() == trimmed(s).first());
    }
    (before, after)
}

proof fn lemma_trim_start_splits(s: Seq<char>) -> (before: Seq<char>)
    ensures
        s == before + trim_start(s),
        all_white(before),
        trim_start(s).len() > 0 ==> !is_white_space(trim_start(s).first()),
    decreases s.len(),
{
    if s.len() > 0 && is_white_space(s.first()) {
        let rest = lemma_trim_start_splits(s.drop_first());
        let before = seq![s.first()] + rest;
        assert(s =~= seq![s.first()] + s.drop_first());
        assert(s.drop_first() == rest + trim_start(s));
        assert(s =~= before + trim_start(s));
        assert forall|i: int| 0 <= i < before.len() implies is_white_space(#[trigger] before[i]) by {
            if i > 0 {
                assert(before[i] == rest[i - 1]);
            }
        }
        before
    } else {
        assert(s =~= Seq::<char>::empty() + s);
        Seq::empty()
    }
}

proof fn lemma_trim_end_splits(s: Seq<char>) -> (after: Seq<char>)
    ensures
        s == trim_end(s) + after,
        all_white(after),
        trim_end(s).len() > 0 ==> !is_white_space(trim_end(s).last()),
    decreases s.len(),
{
    if s.len() > 0 && is_white_space(s.last()) {
        let rest = lemma_trim_end_splits(s.drop_last());
        let after = rest.push(s.last());
        assert(s =~= s.drop_last().push(s.last()));
        assert(s.drop_last() == trim_end(s) + rest);
        assert(s =~= trim_end(s) + after);
        after
    } else {
        assert(s =~= s + Seq::<char>::empty());
        Seq::empty()
    }
}

/// White space around a text makes no difference once it is trimmed.
pub proof fn law_trimming_ignores_space(before: Seq<char>, s: Seq<char>, after: Seq<char>)
    requires
        all_white(before),
        all_white(after),
    ensures
        trimmed(before + s + after) == trimmed(s),
{
    assert(before + s + after =~= before + (s + after));
    lemma_trim_start_space(before, s + after);
    let lead = lemma_trim_start_splits(s);
    if trim_start(s).len() == 0 {
        assert(s =~= lead);
        assert forall|i: int| 0 <= i < (s + after).len() implies is_white_space(
            #[trigger] (s + after)[i],
        ) by {
            if i < s.len() {
                assert(is_white_space(lead[i]));
            } else {
                assert(is_white_space(after[i - s.len()]));
            }
        }
        lemma_trim_start_space(s + after, Seq::empty());
        assert(s + after + Seq::<char>::empty() =~= s + after);
    } else {
        assert(s + after =~= lead + (trim_start(s) + after));
        lemma_trim_start_space(lead, trim_start(s) + after);
        assert((trim_start(s) + after).first() == trim_start(s).first());
        lemma_trim_end_space(trim_start(s), after);
    }
}

/// The part of `s` between its leading and its trailing white space.
pub fn trim<'a>(s: &'a str) -> (r: &'a str)
    ensures
        r@ == trimmed(s@),
{
    let v = chars_of(s);
    let n: usize = v.len();
    let mut i: usize = 0;
    assert(s@.subrange(0, n as int) =~= s@);
    while i < n && white_space(v[i])
        invariant
            i <= n == v.len(),
            v@ == s@,
            trim_start(s@) == trim_start(s@.subrange(i as int, n as int)),
        ensures
            i <= n,
            i < n ==> !is_white_space(v[i as int]),
            trim_start(s@) == trim_start(s@.subrange(i as int, n as int)),
        decreases n - i,
    {
        assert(s@.subrange(i as int, n as int).drop_first() =~= s@.subrange(i + 1, n as int));
        i += 1;
    }
    let mut j: usize = n;
    while j > i && white_space(v[j - 1])
        invariant
            i <= j <= n == v.len(),
            v@ == s@,
            trim_end(s@.subrange(i as int, n as int)) == trim_end(
                s@.subrange(i as int, j as int),
            ),
        ensures
            i <= j <= n,
            j > i ==> !is_white_space(v[j - 1]),
            trim_end(s@.subrange(i as int, n as int)) == trim_end(
                s@.subrange(i as int, j as int),
            ),
        decreases j,
    {
        assert(s@.subrange(i as int, j as int).drop_last() =~= s@.subrange(i as int, j - 1));
        j -= 1;
    }
    s.substring_char(i, j)
}

/// Tells whether nothing but white space is in `s`.
pub fn is_blank(s: &str) -> (r: bool)
    ensures
        r == (trimmed(s@).len() == 0),
{
    trim(s).is_empty()
}

// ---------------------------------------------------------------------------
// Splitting
// ---------------------------------------------------------------------------

/// The pieces of `s` between the occurrences of `sep`: always at least one,
/// and one more than there are separators.
pub open spec fn pieces(s: Seq<char>, sep: char) -> Seq<Seq<char>>
    decreases s.len(),
{
    if s.len() == 0 {
        seq![Seq::<char>::empty()]
    } else {
        let before = pieces(s.drop_last(), sep);
        if s.last() == sep {
            before.push(Seq::<char>::empty())
        } else {
            before.drop_last().push(before.last().push(s.last()))
        }
    }
}

/// `s` ends with `tail`.
pub open spec fn ends_with(s: Seq<char>, tail: Seq<char>) -> bool {
    tail.len() <= s.len() && s.skip(s.len() - tail.len()) == tail
}

/// The last piece of a text is what stands behind the last separator, or the
/// whole text where there is none.
pub proof fn law_last_piece(s: Seq<char>, sep: char)
    ensures
        !pieces(s, sep).last().contains(sep),
        !s.contains(sep) ==> pieces(s, sep).last() == s,
        s.contains(sep) ==> ends_with(s, seq![sep] + pieces(s, sep).last()),
    decreases s.len(),
{
    lemma_pieces_nonempty(s, sep);
    if s.len() > 0 {
        let init = s.drop_last();
        let c = s.last();
        law_last_piece(init, sep);
        lemma_pieces_nonempty(init, sep);
        let before = pieces(init, sep).last();
        assert(s =~= init.push(c));
        if c == sep {
            assert(s[s.len() - 1] == sep);
            assert(s.skip(s.len() - 1) =~= seq![sep] + Seq::<char>::empty());
        } else {
            assert(pieces(s, sep).last() == before.push(c));
            assert(s.contains(sep) <==> init.contains(sep)) by {
                if s.contains(sep) {
                    let k = choose|k: int| 0 <= k < s.len() && s[k] == sep;
                    assert(init[k] == sep);
                }
                if init.contains(sep) {
                    let k = choose|k: int| 0 <= k < init.len() && init[k] == sep;
                    assert(s[k] == sep);
                }
            }
            assert(!before.push(c).contains(sep)) by {
                if before.push(c).contains(sep) {
                    let k = choose|k: int| 0 <= k < before.push(c).len() && before.push(c)[k] == sep;
                    assert(before[k] == sep);
                }
            }
            if s.contains(sep) {
                let tail = seq![sep] + before;
                assert(s.skip(s.len() - (tail.len() + 1)) =~= init.skip(
                    init.len() - tail.len(),
                ).push(c));
                assert(seq![sep] + before.push(c) =~= tail.push(c));
            }
        }
    }
}

/// There is always a piece.
pub proof fn lemma_pieces_nonempty(s: Seq<char>, sep: char)
    ensures
        pieces(s, sep).len() >= 1,
    decreases s.len(),
{
    if s.len() > 0 {
        lemma_pieces_nonempty(s.drop_last(), sep);
    }
}

/// Text without a separator is a single piece.
pub proof fn lemma_pieces_single(s: Seq<char>, sep: char)
    requires
        !s.contains(sep),
    ensures
        pieces(s, sep) == seq![s],
    decreases s.len(),
{
    if s.len() == 0 {
        assert(s =~= Seq::<char>::empty());
    } else {
        let t = s.drop_last();
        assert(!t.contains(sep)) by {
            if t.contains(sep) {
                let i = choose|i: int| 0 <= i < t.len() && t[i] == sep;
                assert(s[i] == sep);
            }
        }
        assert(s[s.len() - 1] != sep);
        lemma_pieces_single(t, sep);
        assert(t.push(s.last()) =~= s);
        assert(pieces(s, sep) =~= seq![s]);
    }
}

/// Splitting two texts joined by a separator gives the pieces of the first,
/// then those of the second.
pub proof fn lemma_pieces_join(a: Seq<char>, sep: char, b: Seq<char>)
    ensures
        pieces(a.push(sep) + b, sep) == pieces(a, sep) + pieces(b, sep),
    decreases b.len(),
{
    lemma_pieces_nonempty(a, sep);
    lemma_pieces_nonempty(b, sep);
    let whole = a.push(sep) + b;
    if b.len() == 0 {
        assert(whole =~= a.push(sep));
        assert(whole.drop_last() =~= a);
        assert(pieces(whole, sep) =~= pieces(a, sep) + pieces(b, sep));
    } else {
        lemma_pieces_join(a, sep, b.drop_last());
        lemma_pieces_nonempty(b.drop_last(), sep);
        assert(whole.drop_last() =~= a.push(sep) + b.drop_last());
        assert(pieces(whole, sep) =~= pieces(a, sep) + pieces(b, sep));
    }
}

/// No piece holds the separator.
pub proof fn lemma_pieces_free(s: Seq<char>, sep: char, i: int)
    requires
        0 <= i < pieces(s, sep).len(),
    ensures
        !pieces(s, sep)[i].contains(sep),
    decreases s.len(),
{
    if s.len() > 0 {
        let before = pieces(s.drop_last(), sep);
        lemma_pieces_nonempty(s.drop_last(), sep);
        if s.last() == sep {
            if i < before.len() {
                lemma_pieces_free(s.drop_last(), sep, i);
            }
        } else {
            lemma_pieces_free(s.drop_last(), sep, i);
            let p = before[i];
            if i == before.len() - 1 && p.push(s.last()).contains(sep) {
                let k = choose|k: int|
                    0 <= k < p.push(s.last()).len() && p.push(s.last())[k] == sep;
                assert(p[k] == sep);
                assert(p.contains(sep));
            }
        }
    }
}

/// The characters of each string of a list.
pub open spec fn texts(v: Seq<&str>) -> Seq<Seq<char>> {
    v.map_values(|s: &str| s@)
}

/// Splits `s` at every occurrence of `sep`.
pub fn split<'a>(s: &'a str, sep: char) -> (r: Vec<&'a str>)
    ensures
        texts(r@) == pieces(s@, sep),
{
    let v = chars_of(s);
    let n: usize = v.len();
    let mut out: Vec<&'a str> = Vec::new();
    let mut start: usize = 0;
    let mut i: usize = 0;
    assert(s@.take(0) =~= Seq::<char>::empty());
    assert(texts(out@).push(s@.subrange(0, 0)) =~= pieces(s@.take(0), sep));
    while i < n
        invariant
            start <= i <= n == v.len(),
            v@ == s@,
            texts(out@).push(s@.subrange(start as int, i as int)) == pieces(s@.take(i as int), sep),
        decreases n - i,
    {
        let ghost done = texts(out@);
        let ghost open = s@.subrange(start as int, i as int);
        assert(s@.take(i + 1).drop_last() =~= s@.take(i as int));
        if v[i] == sep {
            let piece = s.substring_char(start, i);
            out.push(piece);
            start = i + 1;
            assert(texts(out@) =~= done.push(open));
            assert(s@.subrange(start as int, i + 1) =~= Seq::<char>::empty());
        } else {
            assert(s@.subrange(start as int, i + 1) =~= open.push(s@[i as int]));
            assert(done.push(open).drop_last() =~= done);
        }
        i += 1;
    }
    let ghost done = texts(out@);
    let piece = s.substring_char(start, n);
    out.push(piece);
    assert(s@.take(n as int) =~= s@);
    assert(texts(out@) =~= done.push(s@.subrange(start as int, n as int)));
    out
}

/// The part of `s` after the last `sep`, all of `s` where there is none.
pub fn last_piece<'a>(s: &'a str, sep: char) -> (r: &'a str)
    ensures
        r@ == pieces(s@, sep).last(),
{
    let parts = split(s, sep);
    proof {
        lemma_pieces_nonempty(s@, sep);
        assert(texts(parts@).len() == parts.len());
    }
    parts[parts.len() - 1]
}

// ---------------------------------------------------------------------------
// Searching and comparing
// ---------------------------------------------------------------------------

/// `needle` occurs in `s`, starting at position `at`.
pub open spec fn occurs_at(s: Seq<char>, needle: Seq<char>, at: int) -> bool {
    &&& 0 <= at
    &&& at + needle.len() <= s.len()
    &&& s.subrange(at, at + needle.len()) == needle
}

/// `needle` occurs somewhere in `s`.
pub open spec fn has_text(s: Seq<char>, needle: Seq<char>) -> bool {
    exists|at: int| occurs_at(s, needle, at)
}

/// Tells whether `v` holds `needle` from position `at` on.
fn matches_at(v: &Vec<char>, needle: &Vec<char>, at: usize) -> (r: bool)
    requires
        at + needle.len() <= v.len(),
    ensures
        r == occurs_at(v@, needle@, at as int),
{
    let mut k: usize = 0;
    while k < needle.len()
        invariant
            k <= needle.len(),
            at + needle.len() <= v.len(),
            forall|j: int| 0 <= j < k ==> v[at + j] == needle[j],
        decreases needle.len() - k,
    {
        if v[at + k] != needle[k] {
            assert(v@.subrange(at as int, at + needle@.len())[k as int] == v[at + k]);
            return false;
        }
        k += 1;
    }
    assert(v@.subrange(at as int, at + needle@.len()) =~= needle@);
    true
}

/// Tells whether `needle` occurs in `s`.
pub fn contains(s: &str, needle: &str) -> (r: bool)
    ensures
        r == has_text(s@, needle@),
{
    let v = chars_of(s);
    let w = chars_of(needle);
    if w.len() > v.len() {
        return false;
    }
    let last: usize = v.len() - w.len();
    let mut at: usize = 0;
    while at <= last
        invariant
            at <= last + 1,
            last == v.len() - w.len(),
            v@ == s@,
            w@ == needle@,
            forall|j: int| 0 <= j < at ==> !occurs_at(s@, needle@, j),
        decreases last + 1 - at,
    {
        if matches_at(&v, &w, at) {
            return true;
        }
        if at == last {
            return false;
        }
        at += 1;
    }
    false
}

/// What is left of `s` after `prefix`, `None` where `s` does not begin with it.
pub open spec fn after_prefix(s: Seq<char>, prefix: Seq<char>) -> Option<Seq<char>> {
    if occurs_at(s, prefix, 0) {
        Some(s.skip(prefix.len() as int))
    } else {
        None
    }
}

/// The characters of an optional string.
pub open spec fn opt_text(o: Option<&str>) -> Option<Seq<char>> {
    match o {
        Some(s) => Some(s@),
        None => None,
    }
}

/// Removes `prefix` from the front of `s`.
pub fn strip_prefix<'a>(s: &'a str, prefix: &str) -> (r: Option<&'a str>)
    ensures
        opt_text(r) == after_prefix(s@, prefix@),
{
    let v = chars_of(s);
    let w = chars_of(prefix);
    if w.len() <= v.len() && matches_at(&v, &w, 0) {
        let rest = s.substring_char(w.len(), v.len());
        assert(rest@ =~= s@.skip(prefix@.len() as int));
        Some(rest)
    } else {
        None
    }
}

/// Equal up to the case of ASCII letters.
pub open spec fn same_ignoring_case(a: Seq<char>, b: Seq<char>) -> bool {
    &&& a.len() == b.len()
    &&& forall|i: int| 0 <= i < a.len() ==> ascii_lower(#[trigger] a[i]) == ascii_lower(b[i])
}

/// Compares two texts, ignoring the case of ASCII letters.
pub fn eq_ignore_ascii_case(a: &str, b: &str) -> (r: bool)
    ensures
        r == same_ignoring_case(a@, b@),
{
    let v = chars_of(a);
    let w = chars_of(b);
    if v.len() != w.len() {
        return false;
    }
    let mut i: usize = 0;
    while i < v.len()
        invariant
            i <= v.len() == w.len(),
            v@ == a@,
            w@ == b@,
            forall|j: int| 0 <= j < i ==> ascii_lower(#[trigger] a@[j]) == ascii_lower(b@[j]),
        decreases v.len() - i,
    {
        if to_ascii_lower(v[i]) != to_ascii_lower(w[i]) {
            assert(ascii_lower(a@[i as int]) != ascii_lower(b@[i as int]));
            return false;
        }
        i += 1;
    }
    true
}

/// `a` comes strictly before `b` in the order of their characters' code points.
pub open spec fn text_before(a: Seq<char>, b: Seq<char>) -> bool
    decreases a.len(),
{
    if b.len() == 0 {
        false
    } else if a.len() == 0 {
        true
    } else if a.first() != b.first() {
        (a.first() as int) < (b.first() as int)
    } else {
        text_before(a.drop_first(), b.drop_first())
    }
}

/// Of two texts that part at some character, the one with the smaller character
/// comes before; a text comes before its own continuations.
pub proof fn law_texts_are_in_dictionary_order(
    common: Seq<char>,
    a: char,
    b: char,
    x: Seq<char>,
    y: Seq<char>,
)
    ensures
        a != b ==> (text_before(common + seq![a] + x, common + seq![b] + y) <==> (a as int) < (
        b as int)),
        text_before(common, common + seq![a] + x),
        !text_before(common + seq![a] + x, common),
    decreases common.len(),
{
    let s = common + seq![a] + x;
    let t = common + seq![b] + y;
    if common.len() == 0 {
        assert(s.first() == a);
        assert(t.first() == b);
    } else {
        let rest = common.drop_first();
        law_texts_are_in_dictionary_order(rest, a, b, x, y);
        assert(s.drop_first() =~= rest + seq![a] + x);
        assert(t.drop_first() =~= rest + seq![b] + y);
        assert(s.first() == common.first());
        assert(t.first() == common.first());
    }
}

/// Tells whether `a` comes strictly before `b`.
pub fn before(a: &str, b: &str) -> (r: bool)
    ensures
        r == text_before(a@, b@),
{
    let v = chars_of(a);
    let w = chars_of(b);
    let mut i: usize = 0;
    assert(a@.skip(0) =~= a@);
    assert(b@.skip(0) =~= b@);
    while i < v.len() && i < w.len()
        invariant
            i <= v.len(),
            i <= w.len(),
            v@ == a@,
            w@ == b@,
            text_before(a@, b@) == text_before(a@.skip(i as int), b@.skip(i as int)),
        decreases v.len() - i,
    {
        if v[i] != w[i] {
            return v[i] < w[i];
        }
        assert(a@.skip(i as int).drop_first() =~= a@.skip(i + 1));
        assert(b@.skip(i as int).drop_first() =~= b@.skip(i + 1));
        i += 1;
    }
    i < w.len()
}

/// No text comes before itself.
pub proof fn lemma_before_irreflexive(a: Seq<char>)
    ensures
        !text_before(a, a),
    decreases a.len(),
{
    if a.len() > 0 {
        lemma_before_irreflexive(a.drop_first());
    }
}

/// Of two different texts, exactly one comes before the other.
pub proof fn lemma_before_total(a: Seq<char>, b: Seq<char>)
    requires
        a != b,
    ensures
        text_before(a, b) != text_before(b, a),
    decreases a.len(),
{
    if a.len() == 0 || b.len() == 0 {
        if a.len() == 0 && b.len() == 0 {
            assert(a =~= b);
        }
    } else if a.first() == b.first() {
        if a.drop_first() == b.drop_first() {
            assert(a =~= seq![a.first()] + a.drop_first());
            assert(b =~= seq![b.first()] + b.drop_first());
        }
        lemma_before_total(a.drop_first(), b.drop_first());
    } else {
        if a.first() as int == b.first() as int {
            assert(a.first() == b.first());
        }
    }
}

/// The order of texts is transitive.
pub proof fn lemma_before_transitive(a: Seq<char>, b: Seq<char>, c: Seq<char>)
    requires
        text_before(a, b),
        text_before(b, c),
    ensures
        text_before(a, c),
    decreases a.len(),
{
    if a.len() > 0 && b.len() > 0 && c.len() > 0 {
        if a.first() == b.first() && b.first() == c.first() {
            lemma_before_transitive(a.drop_first(), b.drop_first(), c.drop_first());
        }
    }
}

// ---------------------------------------------------------------------------
// Building
// ---------------------------------------------------------------------------

/// `n` copies of `c`.
pub open spec fn repeated(c: char, n: nat) -> Seq<char> {
    Seq::new(n, |i: int| c)
}

/// `n` spaces.
pub fn spaces(n: usize) -> (r: String)
    ensures
        r@ == repeated(' ', n as nat),
{
    let mut out: String = String::new();
    let mut i: usize = 0;
    while i < n
        invariant
            i <= n,
            out@ =~= repeated(' ', i as nat),
        decreases n - i,
    {
        out.push(' ');
        i += 1;
    }
    out
}

/// `s` followed by as many spaces as it takes to reach `width` characters.
pub open spec fn padded_right(s: Seq<char>, width: nat) -> Seq<char> {
    if s.len() >= width {
        s
    } else {
        s + repeated(' ', (width - s.len()) as nat)
    }
}

/// Pads `s` with spaces on the right.
pub fn pad_right(s: &str, width: usize) -> (r: String)
    ensures
        r@ == padded_right(s@, width as nat),
{
    let n: usize = s.unicode_len();
    let mut out: String = s.to_owned();
    if n < width {
        out.append(spaces(width - n).as_str());
    }
    out
}

/// `s` preceded by as many zeros as it takes to reach `width` characters.
pub open spec fn zero_padded(s: Seq<char>, width: nat) -> Seq<char> {
    if s.len() >= width {
        s
    } else {
        repeated('0', (width - s.len()) as nat) + s
    }
}

/// Pads `s` with zeros on the left.
pub fn zero_pad(s: &str, width: usize) -> (r: String)
    ensures
        r@ == zero_padded(s@, width as nat),
{
    let n: usize = s.unicode_len();
    let mut out: String = String::new();
    if n < width {
        let mut i: usize = 0;
        while i < width - n
            invariant
                i <= width - n,
                n < width,
                out@ =~= repeated('0', i as nat),
            decreases width - n - i,
        {
            out.push('0');
            i += 1;
        }
    }
    out.append(s);
    assert(out@ =~= zero_padded(s@, width as nat));
    out
}

/// `s` itself where it has at most `n` characters, otherwise its first
/// `n - 1` characters and a `~`.
pub open spec fn truncated(s: Seq<char>, n: nat) -> Seq<char> {
    if s.len() <= n {
        s
    } else {
        s.take(if n == 0 {
            0
        } else {
            n - 1
        }).push('~')
    }
}

/// Shortens `s` to `n` characters, marking the cut with a `~`.
pub fn truncate(s: &str, n: usize) -> (r: String)
    ensures
        r@ == truncated(s@, n as nat),
{
    if s.unicode_len() <= n {
        s.to_owned()
    } else {
        let keep: usize = if n == 0 {
            0
        } else {
            n - 1
        };
        let head = s.substring_char(0, keep);
        let mut out: String = head.to_owned();
        out.push('~');
        assert(out@ =~= truncated(s@, n as nat));
        out
    }
}

/// A truncated text fits, as long as there is room for the mark itself.
pub proof fn law_truncated_fits(s: Seq<char>, n: nat)
    requires
        n >= 1,
    ensures
        truncated(s, n).len() <= n,
        s.len() <= n ==> truncated(s, n) == s,
{
}

/// Truncating twice to the same width changes nothing more.
pub proof fn law_truncated_idempotent(s: Seq<char>, n: nat)
    requires
        n >= 1,
    ensures
        truncated(truncated(s, n), n) == truncated(s, n),
{
    law_truncated_fits(s, n);
}

/// The texts of a list, joined by `sep`.
pub open spec fn joined(parts: Seq<Seq<char>>, sep: Seq<char>) -> Seq<char>
    decreases parts.len(),
{
    if parts.len() == 0 {
        Seq::empty()
    } else if parts.len() == 1 {
        parts[0]
    } else {
        joined(parts.drop_last(), sep) + sep + parts.last()
    }
}

/// Joins the strings of a list, with `sep` between each two.
pub fn join(parts: &Vec<String>, sep: &str) -> (r: String)
    ensures
        r@ == joined(parts.deep_view(), sep@),
{
    let mut out: String = String::new();
    let mut i: usize = 0;
    let ghost all = parts.deep_view();
    assert(all.take(0) =~= Seq::<Seq<char>>::empty());
    while i < parts.len()
        invariant
            i <= parts.len(),
            all == parts.deep_view(),
            out@ == joined(all.take(i as int), sep@),
        decreases parts.len() - i,
    {
        assert(all[i as int] == parts[i as int]@);
        assert(all.take(i + 1).drop_last() =~= all.take(i as int));
        if i > 0 {
            out.append(sep);
        } else {
            assert(out@ =~= Seq::<char>::empty());
        }
        let ghost before = out@;
        out.append(parts[i].as_str());
        assert(before + parts[i as int]@ =~= joined(all.take(i + 1), sep@));
        i += 1;
    }
    assert(all.take(all.len() as int) =~= all);
    out
}

/// An optional text, kept only where it is not empty.
pub open spec fn kept_non_empty(o: Option<Seq<char>>) -> Option<Seq<char>> {
    match o {
        Some(s) => if s.len() > 0 {
            Some(s)
        } else {
            None
        },
        None => None,
    }
}

/// Keeps an optional text only where it is not empty.
pub fn non_empty<'a>(o: Option<&'a str>) -> (r: Option<&'a str>)
    ensures
        opt_text(r) == kept_non_empty(opt_text(o)),
{
    match o {
        Some(s) => if s.is_empty() {
            None
        } else {
            Some(s)
        },
        None => None,
    }
}

/// `Some` of a text that is not empty, `None` of the empty text.
pub open spec fn some_unless_empty(s: Seq<char>) -> Option<Seq<char>> {
    if s.len() == 0 {
        None
    } else {
        Some(s)
    }
}

/// Turns an empty string into `None`.
pub fn unless_empty(s: String) -> (r: Option<String>)
    ensures
        r.deep_view() == some_unless_empty(s@),
{
    if s.as_str().is_empty() {
        None
    } else {
        Some(s)
    }
}

/// Borrows the text of an optional string.
pub fn opt_str<'a>(o: &'a Option<String>) -> (r: Option<&'a str>)
    ensures
        opt_text(r) == o.deep_view(),
{
    match o {
        Some(s) => Some(s.as_str()),
        None => None,
    }
}

/// Pieces without a separator are what their join splits into.
pub proof fn lemma_joined_splits(parts: Seq<Seq<char>>, sep: char)
    requires
        parts.len() >= 1,
        forall|i: int| 0 <= i < parts.len() ==> !(#[trigger] parts[i]).contains(sep),
    ensures
        pieces(joined(parts, seq![sep]), sep) == parts,
    decreases parts.len(),
{
    if parts.len() == 1 {
        lemma_pieces_single(parts[0], sep);
        assert(seq![parts[0]] =~= parts);
    } else {
        let init = parts.drop_last();
        assert forall|i: int| 0 <= i < init.len() implies !(#[trigger] init[i]).contains(sep) by {
            assert(init[i] == parts[i]);
        }
        lemma_joined_splits(init, sep);
        let head = joined(init, seq![sep]);
        assert(joined(parts, seq![sep]) =~= head.push(sep) + parts.last());
        lemma_pieces_join(head, sep, parts.last());
        lemma_pieces_single(parts.last(), sep);
        assert(init + seq![parts.last()] =~= parts);
    }
}

/// A text is the join of its pieces.
pub proof fn lemma_pieces_joined(s: Seq<char>, sep: char)
    ensures
        joined(pieces(s, sep), seq![sep]) == s,
    decreases s.len(),
{
    let p = pieces(s, sep);
    if s.len() == 0 {
        assert(joined(p, seq![sep]) =~= s);
    } else {
        let before = pieces(s.drop_last(), sep);
        lemma_pieces_joined(s.drop_last(), sep);
        lemma_pieces_nonempty(s.drop_last(), sep);
        if s.last() == sep {
            assert(p.drop_last() =~= before);
            assert(joined(p, seq![sep]) =~= s);
        } else {
            assert(p.drop_last() =~= before.drop_last());
            assert(p.last() == before.last().push(s.last()));
            assert(joined(p, seq![sep]) =~= joined(before, seq![sep]).push(s.last()));
            assert(s.drop_last().push(s.last()) =~= s);
        }
    }
}

/// The place of the first `c`, or the length where there is none.
pub open spec fn first_index(s: Seq<char>, c: char) -> int
    decreases s.len(),
{
    if s.len() == 0 || s[0] == c {
        0
    } else {
        1 + first_index(s.drop_first(), c)
    }
}

/// The text before the first `sep` and the text behind it.
pub open spec fn halves(s: Seq<char>, sep: char) -> Option<(Seq<char>, Seq<char>)> {
    let i = first_index(s, sep);
    if i < s.len() {
        Some((s.take(i), s.skip(i + 1)))
    } else {
        None
    }
}

/// A place that holds `c`, and before which nothing does, is the first.
pub proof fn lemma_first_index_is(s: Seq<char>, c: char, at: int)
    requires
        0 <= at <= s.len(),
        at < s.len() ==> s[at] == c,
        forall|i: int| 0 <= i < at ==> s[i] != c,
    ensures
        first_index(s, c) == at,
    decreases s.len(),
{
    if at > 0 {
        let t = s.drop_first();
        assert forall|i: int| 0 <= i < at - 1 implies t[i] != c by {
            assert(t[i] == s[i + 1]);
        }
        lemma_first_index_is(t, c, at - 1);
    }
}

/// Splits a text at the first `sep`.
pub fn split_once<'a>(s: &'a str, sep: char) -> (r: Option<(&'a str, &'a str)>)
    ensures
        match r {
            Some((a, b)) => halves(s@, sep) == Some((a@, b@)),
            None => halves(s@, sep) is None,
        },
{
    let v: Vec<char> = chars_of(s);
    let n: usize = v.len();
    let mut i: usize = 0;
    while i < n
        invariant
            i <= n,
            n == v.len(),
            v@ == s@,
            forall|k: int| 0 <= k < i ==> v@[k] != sep,
        decreases n - i,
    {
        if v[i] == sep {
            proof {
                lemma_first_index_is(s@, sep, i as int);
            }
            let a: &'a str = s.substring_char(0, i);
            let b: &'a str = s.substring_char(i + 1, n);
            assert(a@ =~= s@.take(i as int));
            assert(b@ =~= s@.skip(i + 1));
            return Some((a, b));
        }
        i += 1;
    }
    proof {
        lemma_first_index_is(s@, sep, n as int);
    }
    None
}

/// Texts can be put together in any grouping.
pub proof fn lemma_assoc(a: Seq<char>, b: Seq<char>, c: Seq<char>)
    ensures
        (a + b) + c == a + (b + c),
{
    assert((a + b) + c =~= a + (b + c));
}

/// A text occurs in another exactly where the other is built around it.
pub proof fn law_occurrence(before: Seq<char>, needle: Seq<char>, after: Seq<char>)
    ensures
        has_text(before + needle + after, needle),
{
    let s = before + needle + after;
    assert(s.subrange(before.len() as int, (before.len() + needle.len()) as int) =~= needle);
    assert(occurs_at(s, needle, before.len() as int));
}

/// What a text that occurs is surrounded by.
pub proof fn law_occurrence_splits(s: Seq<char>, needle: Seq<char>) -> (r: (Seq<char>, Seq<char>))
    requires
        has_text(s, needle),
    ensures
        s == r.0 + needle + r.1,
{
    let at = choose|at: int| occurs_at(s, needle, at);
    let r = (s.take(at), s.skip(at + needle.len()));
    assert(s =~= r.0 + needle + r.1);
    r
}

/// Two texts are the same but for case exactly where their characters are
/// equal, or are one letter in both cases.
pub proof fn law_case_is_ignored(a: Seq<char>, b: Seq<char>)
    ensures
        same_ignoring_case(a, b) <==> a.len() == b.len() && forall|i: int|
            0 <= i < a.len() ==> #[trigger] a[i] == b[i] || ('A' <= a[i] <= 'Z' && b[i] as int
                == a[i] as int + 32) || ('A' <= b[i] <= 'Z' && a[i] as int == b[i] as int + 32),
{
    if a.len() == b.len() {
        assert forall|i: int| 0 <= i < a.len() implies (ascii_lower(a[i]) == ascii_lower(b[i])
            <==> #[trigger] a[i] == b[i] || ('A' <= a[i] <= 'Z' && b[i] as int == a[i] as int + 32)
            || ('A' <= b[i] <= 'Z' && a[i] as int == b[i] as int + 32)) by {
            lemma_lower_equal(a[i], b[i]);
        }
    }
}

proof fn lemma_lower_equal(x: char, y: char)
    ensures
        ascii_lower(x) == ascii_lower(y) <==> x == y || ('A' <= x <= 'Z' && y as int == x as int
            + 32) || ('A' <= y <= 'Z' && x as int == y as int + 32),
{
    let u = ascii_lower(x);
    let v = ascii_lower(y);
    assert(u as int == (if 65 <= x as int <= 90 {
        x as int + 32
    } else {
        x as int
    }));
    assert(v as int == (if 65 <= y as int <= 90 {
        y as int + 32
    } else {
        y as int
    }));
    assert(u as int == v as int ==> u == v);
    assert(x as int == y as int ==> x == y);
}

/// A text that is padded keeps its characters in front, and takes spaces up to
/// the width; one that is long enough stays as it is.
pub proof fn law_padding(s: Seq<char>, width: nat)
    ensures
        padded_right(s, width).len() == (if s.len() >= width {
            s.len()
        } else {
            width
        }),
        padded_right(s, width).take(s.len() as int) == s,
        forall|i: int|
            s.len() <= i < padded_right(s, width).len() ==> #[trigger] padded_right(s, width)[i]
                == ' ',
        zero_padded(s, width).len() == padded_right(s, width).len(),
        zero_padded(s, width).skip(zero_padded(s, width).len() - s.len()) == s,
        forall|i: int|
            0 <= i < zero_padded(s, width).len() - s.len() ==> #[trigger] zero_padded(s, width)[i]
                == '0',
{
    assert(padded_right(s, width).take(s.len() as int) =~= s);
    assert(zero_padded(s, width).skip(zero_padded(s, width).len() - s.len()) =~= s);
}

/// A truncated text is the text itself where it is short enough, and otherwise
/// its beginning with a mark behind it.
pub proof fn law_truncation_keeps_the_beginning(s: Seq<char>, n: nat)
    ensures
        s.len() <= n ==> truncated(s, n) == s,
        s.len() > n && n > 0 ==> truncated(s, n).len() == n && truncated(s, n).last() == '~'
            && truncated(s, n).drop_last() == s.take(n - 1),
{
    if s.len() > n && n > 0 {
        assert(truncated(s, n).drop_last() =~= s.take(n - 1));
    }
}

/// A joined list begins with its first part and grows by the separator and the
/// next part.
pub proof fn law_joining(parts: Seq<Seq<char>>, part: Seq<char>, sep: Seq<char>)
    ensures
        joined(Seq::empty(), sep).len() == 0,
        joined(seq![part], sep) == part,
        parts.len() > 0 ==> joined(parts.push(part), sep) == joined(parts, sep) + sep + part,
{
    assert(parts.push(part).drop_last() =~= parts);
}

/// A text is cut in half at the first separator.
pub proof fn law_halves(before: Seq<char>, sep: char, after: Seq<char>)
    requires
        !before.contains(sep),
    ensures
        halves(before + seq![sep] + after, sep) == Some((before, after)),
        halves(before, sep) is None,
{
    let s = before + seq![sep] + after;
    assert forall|i: int| 0 <= i < before.len() implies before[i] != sep by {
        assert(before.contains(before[i]));
    }
    lemma_first_index_is(s, sep, before.len() as int);
    lemma_first_index_is(before, sep, before.len() as int);
    assert(s.take(before.len() as int) =~= before);
    assert(s.skip((before.len() + 1) as int) =~= after);
}

/// A prefix is taken off a text that begins with it, and off no other.
pub proof fn law_prefix(prefix: Seq<char>, rest: Seq<char>, s: Seq<char>)
    ensures
        after_prefix(prefix + rest, prefix) == Some(rest),
        after_prefix(s, prefix) matches Some(r) ==> s == prefix + r,
{
    let t = prefix + rest;
    assert(t.subrange(0, prefix.len() as int) =~= prefix);
    assert(t.skip(prefix.len() as int) =~= rest);
    if after_prefix(s, prefix) is Some {
        assert(s =~= prefix + s.skip(prefix.len() as int));
    }
}

/// A word stands in a text by itself: at an end of it, or with a space next to
/// it.
pub open spec fn word_between(s: Seq<char>, before: Seq<char>, word: Seq<char>, after: Seq<char>) -> bool {
    &&& s == before + word + after
    &&& before.len() == 0 || before.last() == ' '
    &&& after.len() == 0 || after.first() == ' '
}

/// A word stands somewhere in a text by itself.
pub open spec fn has_word(s: Seq<char>, word: Seq<char>) -> bool {
    exists|before: Seq<char>, after: Seq<char>| #[trigger] word_between(s, before, word, after)
}

/// A word of a text stays one when more words are put in front or behind.
pub proof fn lemma_word_stays(s: Seq<char>, word: Seq<char>, more: Seq<char>)
    requires
        has_word(s, word),
    ensures
        has_word(s + " "@ + more, word),
        has_word(more + " "@ + s, word),
{
    reveal_strlit(" ");
    let (a, b) = choose|a: Seq<char>, b: Seq<char>| #[trigger] word_between(s, a, word, b);
    let behind = b + " "@ + more;
    assert(s + " "@ + more =~= a + word + behind);
    assert(behind.first() == ' ');
    assert(word_between(s + " "@ + more, a, word, behind));
    let front = more + " "@ + a;
    assert(more + " "@ + s =~= front + word + b);
    assert(front.last() == ' ');
    assert(word_between(more + " "@ + s, front, word, b));
}

/// A text is a word of itself.
pub proof fn lemma_own_word(s: Seq<char>)
    ensures
        has_word(s, s),
{
    let none = Seq::<char>::empty();
    assert(s =~= none + s + none);
    assert(word_between(s, none, s, none));
}

/// Every part of a list that is joined by spaces is a word of it.
pub proof fn law_joined_parts_are_words(parts: Seq<Seq<char>>, i: int)
    requires
        0 <= i < parts.len(),
    ensures
        has_word(joined(parts, " "@), parts[i]),
    decreases parts.len(),
{
    let init = parts.drop_last();
    if parts.len() == 1 {
        lemma_own_word(parts[0]);
    } else if i == parts.len() - 1 {
        lemma_own_word(parts.last());
        lemma_word_stays(parts.last(), parts.last(), joined(init, " "@));
    } else {
        law_joined_parts_are_words(init, i);
        assert(init[i] == parts[i]);
        lemma_word_stays(joined(init, " "@), parts[i], parts.last());
    }
}

/// A text that occurs in another still does when more is put in front or behind,
/// and it occurs in what is put together of it.
pub proof fn lemma_text_stays(s: Seq<char>, needle: Seq<char>, more: Seq<char>)
    ensures
        has_text(s, needle) ==> has_text(s + more, needle),
        has_text(s, needle) ==> has_text(more + s, needle),
        has_text(s + more, more),
        has_text(s + more, s),
{
    let none = Seq::<char>::empty();
    if has_text(s, needle) {
        let (a, b) = law_occurrence_splits(s, needle);
        law_occurrence(a, needle, b + more);
        assert(s + more =~= a + needle + (b + more));
        law_occurrence(more + a, needle, b);
        assert(more + s =~= (more + a) + needle + b);
    }
    law_occurrence(s, more, none);
    assert(s + more + none =~= s + more);
    law_occurrence(none, s, more);
    assert(none + s + more =~= s + more);
}

/// Spaces, tabs and line ends are white space, and no visible ASCII character is.
/// What ASCII holds of white space is ASCII white space, but for the vertical tab.
pub proof fn law_white_space(c: char)
    ensures
        c == ' ' || c == '\t' || c == '\n' || c == '\r' || c == '\x0b' || c == '\x0c'
            ==> is_white_space(c),
        0x21 <= c as int <= 0x7e ==> !is_white_space(c),
        c as int == 0xa0 || c as int == 0x2003 || c as int == 0x3000 ==> is_white_space(c),
        is_ascii_white_space(c) <==> (c as int) < 0x80 && is_white_space(c) && c != '\x0b',
{
}

} // verus!
