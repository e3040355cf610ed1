//! Byte offsets of characters in UTF-8 text.
use vstd::prelude::*;
use vstd::string::*;
use vstd::utf8::*;

verus! {

/// The number of bytes that `s` takes in UTF-8.
pub open spec fn byte_len(s: Seq<char>) -> nat {
    encode_utf8(s).len()
}

/// The byte offset of the character at position `k`.
pub open spec fn offset_of(s: Seq<char>, k: int) -> nat {
    byte_len(s.take(k))
}

/// Encoding distributes over concatenation.
pub proof fn lemma_encode_concat(a: Seq<char>, b: Seq<char>)
    ensures
        encode_utf8(a + b) == encode_utf8(a) + encode_utf8(b),
    decreases a.len(),
{
    if a.len() == 0 {
        assert(a + b =~= b);
        assert(encode_utf8(a) + encode_utf8(b) =~= encode_utf8(b));
    } else {
        lemma_encode_concat(a.drop_first(), b);
        assert((a + b).drop_first() =~= a.drop_first() + b);
        assert(encode_utf8(a + b) =~= encode_utf8(a) + encode_utf8(b));
    }
}

/// Different texts have different encodings.
pub proof fn lemma_encode_injective(a: Seq<char>, b: Seq<char>)
    requires
        encode_utf8(a) == encode_utf8(b),
    ensures
        a == b,
{
    encode_utf8_decode_utf8(a);
    encode_utf8_decode_utf8(b);
}

/// Later characters have larger offsets, and the first has offset zero.
pub proof fn lemma_offset_increases(s: Seq<char>, i: int, j: int)
    requires
        0 <= i < j <= s.len(),
    ensures
        offset_of(s, i) < offset_of(s, j),
        offset_of(s, j) <= byte_len(s),
{
    let mid = s.subrange(i, j);
    assert(s.take(j) =~= s.take(i) + mid);
    lemma_encode_concat(s.take(i), mid);
    assert(encode_scalar(mid[0] as u32).len() >= 1);
    assert(encode_utf8(mid).len() >= 1);
    assert(s =~= s.take(j) + s.skip(j));
    lemma_encode_concat(s.take(j), s.skip(j));
}

/// The whole text begins at offset zero and ends at its length in bytes.
pub proof fn lemma_offset_ends(s: Seq<char>)
    ensures
        offset_of(s, 0) == 0,
        offset_of(s, s.len() as int) == byte_len(s),
{
    assert(s.take(0) =~= Seq::<char>::empty());
    assert(s.take(s.len() as int) =~= s);
}

/// Each offset belongs to one position.
pub proof fn lemma_offset_unique(s: Seq<char>, i: int, j: int)
    requires
        0 <= i <= s.len(),
        0 <= j <= s.len(),
        offset_of(s, i) == offset_of(s, j),
    ensures
        i == j,
{
    if i < j {
        lemma_offset_increases(s, i, j);
    } else if j < i {
        lemma_offset_increases(s, j, i);
    }
}

/// The character boundaries of an encoded text are the offsets of its
/// characters, and its end.
pub proof fn lemma_boundary_is_offset(s: Seq<char>, b: int)
    ensures
        is_char_boundary(encode_utf8(s), b) <==> exists|k: int|
            0 <= k <= s.len() && #[trigger] offset_of(s, k) == b,
    decreases s.len(),
{
    let bytes = encode_utf8(s);
    encode_utf8_valid_utf8(s);
    lemma_offset_ends(s);
    if b == 0 {
        assert(offset_of(s, 0) == b);
    } else if b < 0 || b > bytes.len() {
        assert forall|k: int| 0 <= k <= s.len() implies #[trigger] offset_of(s, k) != b by {
            if k < s.len() {
                lemma_offset_increases(s, k, s.len() as int);
            }
        }
    } else {
        let rest = s.drop_first();
        let n = encode_scalar(s[0] as u32).len();
        encode_utf8_first_scalar(s);
        assert(pop_first_scalar(bytes) =~= encode_utf8(rest));
        lemma_boundary_is_offset(rest, b - n);
        assert forall|k: int| 0 <= k <= rest.len() implies #[trigger] offset_of(s, k + 1)
            == offset_of(rest, k) + n by {
            assert(s.take(k + 1).drop_first() =~= rest.take(k));
        }
        if is_char_boundary(bytes, b) {
            let k = choose|k: int| 0 <= k <= rest.len() && #[trigger] offset_of(rest, k) == b - n;
            assert(offset_of(s, k + 1) == b);
        }
        if exists|k: int| 0 <= k <= s.len() && #[trigger] offset_of(s, k) == b {
            let k = choose|k: int| 0 <= k <= s.len() && #[trigger] offset_of(s, k) == b;
            assert(k > 0);
            assert(offset_of(s, (k - 1) + 1) == offset_of(rest, k - 1) + n);
        }
    }
}

/// The greatest character boundary before byte `i` (0 where there is none).
pub fn prev_char_boundary(s: &str, i: usize) -> (r: usize)
    ensures
        is_char_boundary(s.spec_bytes(), r as int),
        i > 0 ==> r < i,
        i == 0 ==> r == 0,
        forall|b: int| r < b < i ==> !#[trigger] is_char_boundary(s.spec_bytes(), b),
{
    proof {
        encode_utf8_valid_utf8(s@);
        is_char_boundary_start_end_of_seq(s.spec_bytes());
    }
    let mut j: usize = if i > 0 {
        i - 1
    } else {
        0
    };
    while j > 0 && !s.is_char_boundary(j)
        invariant
            i > 0 ==> j < i,
            i == 0 ==> j == 0,
            is_char_boundary(s.spec_bytes(), 0),
            forall|b: int| j < b < i ==> !#[trigger] is_char_boundary(s.spec_bytes(), b),
        ensures
            i > 0 ==> j < i,
            i == 0 ==> j == 0,
            is_char_boundary(s.spec_bytes(), j as int),
            forall|b: int| j < b < i ==> !#[trigger] is_char_boundary(s.spec_bytes(), b),
        decreases j,
    {
        j -= 1;
    }
    j
}

/// The least character boundary after byte `i`, at most the length of `s`.
pub fn next_char_boundary(s: &str, i: usize) -> (r: usize)
    requires
        i < usize::MAX,
    ensures
        is_char_boundary(s.spec_bytes(), r as int),
        i >= s.spec_bytes().len() ==> r == s.spec_bytes().len(),
        i < s.spec_bytes().len() ==> i < r <= s.spec_bytes().len(),
        forall|b: int| i < b < r ==> !#[trigger] is_char_boundary(s.spec_bytes(), b),
{
    proof {
        encode_utf8_valid_utf8(s@);
        is_char_boundary_start_end_of_seq(s.spec_bytes());
    }
    let n: usize = s.as_bytes().len();
    let mut j: usize = i + 1;
    while j < n && !s.is_char_boundary(j)
        invariant
            i < j,
            i < n ==> j <= n,
            n == s.spec_bytes().len(),
            is_char_boundary(s.spec_bytes(), n as int),
            forall|b: int| i < b < j ==> !#[trigger] is_char_boundary(s.spec_bytes(), b),
        ensures
            i < j,
            i < n ==> j <= n,
            j < n ==> is_char_boundary(s.spec_bytes(), j as int),
            forall|b: int| i < b < j ==> !#[trigger] is_char_boundary(s.spec_bytes(), b),
        decreases n - j,
    {
        j += 1;
    }
    if j < n {
        j
    } else {
        n
    }
}

} // verus!
