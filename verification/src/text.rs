//! Positions in UTF-8 text: scalar indices, byte offsets, and the edits that
//! the forms make at them.

use vstd::prelude::*;
use vstd::string::*;
use vstd::utf8::*;

verus! {

/// The texts that a sequence of strings holds.
pub open spec fn texts(v: Seq<String>) -> Seq<Seq<char>> {
    Seq::new(v.len(), |i: int| v[i]@)
}

/// Number of bytes that the UTF-8 encoding of `c` takes.
pub open spec fn scalar_len(c: char) -> int {
    encode_scalar(c as u32).len() as int
}

/// Number of bytes that the first `k` scalars of `s` take; all of `s` where
/// `k` is past its end.
pub open spec fn byte_offset(s: Seq<char>, k: int) -> int
    decreases s.len(),
{
    if k <= 0 || s.len() == 0 {
        0
    } else {
        scalar_len(s[0]) + byte_offset(s.drop_first(), k - 1)
    }
}

/// Number of scalars of `s` whose encoding starts before byte `b`.
pub open spec fn scalars_before(s: Seq<char>, b: int) -> int
    decreases s.len(),
{
    if b <= 0 || s.len() == 0 {
        0
    } else {
        1 + scalars_before(s.drop_first(), b - scalar_len(s[0]))
    }
}

/// `text` with `c` in front of the scalar that starts at byte `byte_index`.
pub open spec fn inserted(text: Seq<char>, byte_index: int, c: char) -> Seq<char> {
    text.insert(scalars_before(text, byte_index), c)
}

/// `text` without the scalar that holds the byte in front of `byte_index`;
/// `text` itself at byte 0, where nothing is in front.
pub open spec fn removed_before(text: Seq<char>, byte_index: int) -> Seq<char> {
    if byte_index <= 0 {
        text
    } else {
        text.remove(scalars_before(text, byte_index) - 1)
    }
}

/// Every scalar takes between one and four bytes.
pub proof fn lemma_scalar_len_bounds(c: char)
    ensures
        1 <= scalar_len(c) <= 4,
{
}

/// Offsets grow with the index and stay within the encoding.
pub proof fn lemma_byte_offset_bounds(s: Seq<char>, k: int)
    ensures
        0 <= byte_offset(s, k) <= encode_utf8(s).len(),
        0 <= k <= s.len() ==> k <= byte_offset(s, k),
        k >= s.len() ==> byte_offset(s, k) == encode_utf8(s).len(),
    decreases s.len(),
{
    if k <= 0 || s.len() == 0 {
    } else {
        lemma_scalar_len_bounds(s[0]);
        lemma_byte_offset_bounds(s.drop_first(), k - 1);
    }
}

/// The offset of index `k` is the length of the encoding of the first `k`
/// scalars.
pub proof fn lemma_byte_offset_take(s: Seq<char>, k: int)
    requires
        0 <= k <= s.len(),
    ensures
        byte_offset(s, k) == encode_utf8(s.take(k)).len(),
    decreases s.len(),
{
    if k == 0 {
        assert(s.take(0) =~= Seq::<char>::empty());
    } else {
        assert(s.take(k).drop_first() =~= s.drop_first().take(k - 1));
        assert(s.take(k)[0] == s[0]);
        lemma_byte_offset_take(s.drop_first(), k - 1);
    }
}

/// What the recursion of `is_char_boundary` sees of an encoded text.
proof fn lemma_encoding_head(s: Seq<char>)
    requires
        s.len() > 0,
    ensures
        valid_utf8(encode_utf8(s)),
        length_of_first_scalar(encode_utf8(s)) == scalar_len(s[0]),
        pop_first_scalar(encode_utf8(s)) == encode_utf8(s.drop_first()),
        encode_utf8(s).len() == scalar_len(s[0]) + encode_utf8(s.drop_first()).len(),
{
    encode_utf8_valid_utf8(s);
    encode_utf8_first_scalar(s);
    assert(pop_first_scalar(encode_utf8(s)) =~= encode_utf8(s.drop_first()));
}

/// A byte position is a boundary of the encoding of `s` exactly when it is
/// the offset of the scalars before it.
pub proof fn lemma_boundary_iff_offset(s: Seq<char>, b: int)
    ensures
        is_char_boundary(encode_utf8(s), b) <==> (0 <= b && b == byte_offset(
            s,
            scalars_before(s, b),
        )),
        0 <= scalars_before(s, b) <= s.len(),
    decreases s.len(),
{
    encode_utf8_valid_utf8(s);
    if s.len() == 0 {
        assert(encode_utf8(s).len() == 0);
    } else if b <= 0 {
    } else {
        lemma_encoding_head(s);
        lemma_scalar_len_bounds(s[0]);
        let w = scalar_len(s[0]);
        lemma_boundary_iff_offset(s.drop_first(), b - w);
        lemma_byte_offset_bounds(s.drop_first(), scalars_before(s.drop_first(), b - w));
        if b > encode_utf8(s).len() {
            lemma_byte_offset_bounds(s, scalars_before(s, b));
        }
    }
}

/// The offset of a scalar index is a boundary, and that index is the number
/// of scalars before it.
pub proof fn lemma_offset_is_boundary(s: Seq<char>, k: int)
    requires
        0 <= k <= s.len(),
    ensures
        is_char_boundary(encode_utf8(s), byte_offset(s, k)),
        scalars_before(s, byte_offset(s, k)) == k,
    decreases s.len(),
{
    encode_utf8_valid_utf8(s);
    if k == 0 || s.len() == 0 {
    } else {
        lemma_encoding_head(s);
        lemma_scalar_len_bounds(s[0]);
        lemma_offset_is_boundary(s.drop_first(), k - 1);
        lemma_byte_offset_bounds(s.drop_first(), k - 1);
    }
}

/// Between a boundary and the next one, the count of scalars before a byte
/// is one more than at the boundary.
pub proof fn lemma_scalars_before_within(s: Seq<char>, start: int, b: int)
    requires
        0 <= start < b <= encode_utf8(s).len(),
        is_char_boundary(encode_utf8(s), start),
        forall|p: int| start < p < b ==> !is_char_boundary(encode_utf8(s), p),
    ensures
        scalars_before(s, b) == scalars_before(s, start) + 1,
        scalars_before(s, start) < s.len(),
    decreases s.len(),
{
    encode_utf8_valid_utf8(s);
    if s.len() == 0 {
        assert(encode_utf8(s).len() == 0);
    } else {
        lemma_encoding_head(s);
        lemma_scalar_len_bounds(s[0]);
        let w = scalar_len(s[0]);
        let rest = s.drop_first();
        encode_utf8_valid_utf8(rest);
        assert(scalars_before(s, b) == 1 + scalars_before(rest, b - w));
        if start == 0 {
            // the end of the first scalar is a boundary, so `b` is not behind it
            assert(is_char_boundary(encode_utf8(rest), 0));
            assert(is_char_boundary(encode_utf8(s), w));
            assert(b <= w);
        } else {
            assert(start >= w) by {
                if start < w {
                    assert(!is_char_boundary(encode_utf8(rest), start - w));
                }
            }
            assert forall|p: int| start - w < p < b - w implies !is_char_boundary(
                encode_utf8(rest),
                p,
            ) by {
                assert(!is_char_boundary(encode_utf8(s), p + w));
            }
            lemma_scalars_before_within(rest, start - w, b - w);
            assert(scalars_before(s, start) == 1 + scalars_before(rest, start - w));
        }
    }
}

/// Byte offset at which the scalar with index `char_index` starts in `s`;
/// the byte length of `s` where the index is past the last scalar.
pub fn byte_index(s: &str, char_index: usize) -> (r: usize)
    ensures
        r == byte_offset(s@, char_index as int),
        is_char_boundary(encode_utf8(s@), r as int),
{
    let count = s.unicode_len();
    let k = if char_index < count {
        char_index
    } else {
        count
    };
    let head = s.substring_char(0, k);
    proof {
        assert(s@.subrange(0, k as int) == s@.take(k as int));
        lemma_byte_offset_take(s@, k as int);
        lemma_byte_offset_bounds(s@, char_index as int);
        lemma_byte_offset_bounds(s@, k as int);
        lemma_offset_is_boundary(s@, k as int);
    }
    head.as_bytes().len()
}

/// `String::insert`: puts `c` in front of the scalar that starts at byte
/// `idx`, or at the end where `idx` is the byte length. The standard
/// library panics where `idx` is no boundary between scalars, which the
/// precondition leaves out.
#[verifier::external_body]
fn string_insert(s: &mut String, idx: usize, c: char)
    requires
        is_char_boundary(encode_utf8(old(s)@), idx as int),
    ensures
        final(s)@ == old(s)@.insert(scalars_before(old(s)@, idx as int), c),
{
    s.insert(idx, c)
}

/// `String::remove`: takes out the scalar that starts at byte `idx` and
/// returns it. The standard library panics where `idx` is the byte length
/// or more, or no boundary between scalars, which the precondition leaves
/// out.
#[verifier::external_body]
fn string_remove(s: &mut String, idx: usize) -> (c: char)
    requires
        idx < encode_utf8(old(s)@).len(),
        is_char_boundary(encode_utf8(old(s)@), idx as int),
    ensures
        c == old(s)@[scalars_before(old(s)@, idx as int)],
        final(s)@ == old(s)@.remove(scalars_before(old(s)@, idx as int)),
{
    s.remove(idx)
}

/// Puts `c` into `s` in front of the scalar that starts at byte
/// `byte_index`.
pub fn insert_at(s: &mut String, byte_index: usize, c: char)
    requires
        is_char_boundary(encode_utf8(old(s)@), byte_index as int),
    ensures
        final(s)@ == inserted(old(s)@, byte_index as int, c),
{
    string_insert(s, byte_index, c);
}

/// Appends `c` to `s`.
pub fn push_char(s: &mut String, c: char)
    ensures
        final(s)@ == old(s)@.push(c),
{
    let end = s.as_str().as_bytes().len();
    proof {
        lemma_byte_offset_bounds(s@, s@.len() as int);
        lemma_offset_is_boundary(s@, s@.len() as int);
    }
    insert_at(s, end, c);
    assert(s@ =~= old(s)@.push(c));
}

/// Takes out of `s` the scalar that holds the byte in front of
/// `byte_index`. At byte 0 nothing is in front, and `s` stays as it is.
pub fn remove_before(s: &mut String, byte_index: usize)
    requires
        byte_index <= encode_utf8(old(s)@).len(),
    ensures
        final(s)@ == removed_before(old(s)@, byte_index as int),
{
    if byte_index == 0 {
        return ;
    }
    let ghost text = s@;
    let mut start: usize = byte_index - 1;
    proof {
        encode_utf8_valid_utf8(text);
    }
    while !s.as_str().is_char_boundary(start)
        invariant
            start < byte_index,
            s@ == text,
            valid_utf8(encode_utf8(text)),
            forall|p: int| start < p < byte_index ==> !is_char_boundary(encode_utf8(text), p),
        decreases start,
    {
        assert(start > 0);
        start -= 1;
    }
    proof {
        lemma_scalars_before_within(text, start as int, byte_index as int);
        lemma_boundary_iff_offset(text, start as int);
    }
    string_remove(s, start);
}

} // verus!
