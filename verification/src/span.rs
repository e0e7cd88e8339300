//! Byte spans of UTF-8 text: reading the text inside a span and cutting a
//! span out. Spans are the byte offsets that regular-expression matches
//! report.

use vstd::prelude::*;
use vstd::utf8::*;

verus! {

broadcast use vstd::utf8::group_utf8_lib;

/// The UTF-8 bytes of the text `s`.
pub open spec fn bytes_of(s: Seq<char>) -> Seq<u8> {
    encode_utf8(s)
}

/// Whether byte offset `i` of the text `s` falls on a character boundary.
pub open spec fn on_boundary(s: Seq<char>, i: int) -> bool {
    is_char_boundary(bytes_of(s), i)
}

/// Whether `a..b` is a span of `s` whose ends fall on character boundaries.
pub open spec fn is_span(s: Seq<char>, a: int, b: int) -> bool {
    0 <= a <= b <= bytes_of(s).len() && on_boundary(s, a) && on_boundary(s, b)
}

/// The text that the bytes `a..b` of `s` encode.
pub open spec fn span_text(s: Seq<char>, a: int, b: int) -> Seq<char> {
    decode_utf8(bytes_of(s).subrange(a, b))
}

/// `s` with the bytes `a..b` cut out.
pub open spec fn cut_span(s: Seq<char>, a: int, b: int) -> Seq<char> {
    decode_utf8(
        bytes_of(s).subrange(0, a) + bytes_of(s).subrange(b, bytes_of(s).len() as int),
    )
}

/// Encoding distributes over concatenation.
pub proof fn lemma_encode_concat(a: Seq<char>, b: Seq<char>)
    ensures
        encode_utf8(a + b) == encode_utf8(a) + encode_utf8(b),
    decreases a.len(),
{
    if a.len() == 0 {
        assert(a + b =~= b);
        assert(encode_utf8(a) + encode_utf8(b) =~= encode_utf8(b));
    } else {
        lemma_encode_concat(a.drop_first(), b);
        assert((a + b).drop_first() =~= a.drop_first() + b);
        assert((a + b)[0] == a[0]);
        assert(encode_utf8(a + b) =~= encode_scalar(a[0] as u32) + (encode_utf8(a.drop_first())
            + encode_utf8(b)));
    }
}

/// A boundary of valid UTF-8 text is still one in any prefix that reaches it.
proof fn lemma_boundary_in_prefix(bytes: Seq<u8>, b: int, a: int)
    requires
        valid_utf8(bytes),
        is_char_boundary(bytes, b),
        is_char_boundary(bytes, a),
        0 <= a <= b <= bytes.len(),
    ensures
        is_char_boundary(bytes.subrange(0, b), a),
{
    let p = bytes.subrange(0, b);
    assert(valid_utf8(p));
    if a == b {
        is_char_boundary_start_end_of_seq(p);
    } else if a > 0 {
        is_char_boundary_iff_not_is_continuation_byte(bytes, a);
        is_char_boundary_iff_not_is_continuation_byte(p, a);
    }
}

/// A boundary of valid UTF-8 text is still one, shifted, in any suffix that
/// starts at a boundary before it.
proof fn lemma_boundary_in_suffix(bytes: Seq<u8>, a: int, b: int)
    requires
        valid_utf8(bytes),
        is_char_boundary(bytes, a),
        is_char_boundary(bytes, b),
        0 <= a <= b <= bytes.len(),
    ensures
        is_char_boundary(bytes.subrange(a, bytes.len() as int), b - a),
{
    let q = bytes.subrange(a, bytes.len() as int);
    assert(valid_utf8(q));
    if b == bytes.len() {
        is_char_boundary_start_end_of_seq(q);
        assert(q.len() == b - a);
    } else if b > a {
        is_char_boundary_iff_not_is_continuation_byte(bytes, b);
        is_char_boundary_iff_not_is_continuation_byte(q, b - a);
    }
}

/// Valid UTF-8 that is followed by more valid UTF-8 ends on a boundary of
/// the whole.
proof fn lemma_concat_boundary(x: Seq<u8>, y: Seq<u8>)
    requires
        valid_utf8(x),
        valid_utf8(y),
    ensures
        valid_utf8(x + y),
        is_char_boundary(x + y, x.len() as int),
{
    valid_utf8_concat(x, y);
    let z = x + y;
    if y.len() == 0 {
        assert(z =~= x);
        is_char_boundary_start_end_of_seq(z);
    } else {
        is_char_boundary_iff_not_is_continuation_byte(y, 0);
        assert(z[x.len() as int] == y[0]);
        is_char_boundary_iff_not_is_continuation_byte(z, x.len() as int);
    }
}

/// Decoding distributes over concatenation of valid UTF-8.
proof fn lemma_decode_concat(x: Seq<u8>, y: Seq<u8>)
    requires
        valid_utf8(x),
        valid_utf8(y),
    ensures
        decode_utf8(x + y) == decode_utf8(x) + decode_utf8(y),
{
    lemma_concat_boundary(x, y);
    let z = x + y;
    decode_utf8_split(z, x.len() as int);
    assert(z.subrange(0, x.len() as int) =~= x);
    assert(z.subrange(x.len() as int, z.len() as int) =~= y);
}

/// Cutting a span out of a text keeps the text before it and the text
/// after it, unchanged and in order; and the text is the text before the
/// span, the span's text, and the text after it.
pub proof fn lemma_cut_keeps_surroundings(s: Seq<char>, a: int, b: int)
    requires
        is_span(s, a, b),
    ensures
        cut_span(s, a, b) == span_text(s, 0, a) + span_text(s, b, bytes_of(s).len() as int),
        s == span_text(s, 0, a) + span_text(s, a, b) + span_text(s, b, bytes_of(s).len() as int),
{
    let bs = bytes_of(s);
    let n = bs.len() as int;
    assert(valid_utf8(bs));
    let pre = bs.subrange(0, a);
    let rest = bs.subrange(a, n);
    assert(valid_utf8(pre));
    assert(valid_utf8(rest));
    lemma_boundary_in_suffix(bs, a, b);
    let mid = rest.subrange(0, b - a);
    let post = rest.subrange(b - a, rest.len() as int);
    assert(valid_utf8(mid));
    assert(valid_utf8(post));
    assert(mid =~= bs.subrange(a, b));
    assert(post =~= bs.subrange(b, n));
    lemma_decode_concat(pre, post);
    lemma_decode_concat(mid, post);
    lemma_decode_concat(pre, mid + post);
    assert(pre + (mid + post) =~= bs);
    assert(decode_utf8(bs) == s);
}

/// The text inside the span `a..b` of `s`.
pub fn span_to_string(s: &str, a: usize, b: usize) -> (r: String)
    requires
        is_span(s@, a as int, b as int),
    ensures
        r@ == span_text(s@, a as int, b as int),
{
    proof {
        lemma_boundary_in_prefix(bytes_of(s@), b as int, a as int);
    }
    let (left, _) = s.split_at(b);
    let (_, mid) = left.split_at(a);
    proof {
        assert(bytes_of(mid@) =~= bytes_of(s@).subrange(a as int, b as int));
    }
    mid.to_owned()
}

/// Cuts the span `a..b` out of `content`.
pub fn remove_span(content: &mut String, a: usize, b: usize)
    requires
        is_span(old(content)@, a as int, b as int),
    ensures
        final(content)@ == cut_span(old(content)@, a as int, b as int),
{
    let ghost whole = bytes_of(content@);
    proof {
        lemma_boundary_in_suffix(whole, a as int, b as int);
    }
    let (left, rest) = content.as_str().split_at(a);
    let (_, right) = rest.split_at(b - a);
    let mut joined: String = left.to_owned();
    joined.append(right);
    proof {
        lemma_encode_concat(left@, right@);
        assert(bytes_of(right@) =~= whole.subrange(b as int, whole.len() as int));
        assert(bytes_of(joined@) =~= whole.subrange(0, a as int) + whole.subrange(
            b as int,
            whole.len() as int,
        ));
    }
    *content = joined;
}

} // verus!
