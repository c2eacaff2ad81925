//! The code-point order of text is the byte order of its UTF-8 encoding, so
//! sorting by characters sorts as `String`'s `Ord` does.

use vstd::prelude::*;
use vstd::utf8::{
    encode_scalar, encode_utf8, has_width_1_encoding, has_width_2_encoding, has_width_3_encoding,
    has_width_4_encoding, is_scalar, last_continuation_byte, leading_byte_width_1,
    leading_byte_width_2, leading_byte_width_3, leading_byte_width_4,
    second_last_continuation_byte, third_last_continuation_byte,
};
use crate::text::text_lt;

verus! {

/// Whether byte string `a` comes strictly before `b` in lexicographic order.
pub open spec fn bytes_lt(a: Seq<u8>, b: Seq<u8>) -> bool
    decreases a.len(),
{
    if a.len() == 0 {
        b.len() > 0
    } else if b.len() == 0 {
        false
    } else if a[0] != b[0] {
        a[0] < b[0]
    } else {
        bytes_lt(a.drop_first(), b.drop_first())
    }
}

proof fn lemma_bytes_lt_at(s: Seq<u8>, t: Seq<u8>, k: int)
    requires
        0 <= k < s.len(),
        k < t.len(),
        s[k] != t[k],
        forall|i: int| 0 <= i < k ==> s[i] == t[i],
    ensures
        bytes_lt(s, t) == (s[k] < t[k]),
    decreases k,
{
    if k > 0 {
        assert(s[0] == t[0]);
        assert forall|i: int| 0 <= i < k - 1 implies s.drop_first()[i] == t.drop_first()[i] by {
            assert(s[i + 1] == t[i + 1]);
        }
        lemma_bytes_lt_at(s.drop_first(), t.drop_first(), k - 1);
    }
}

proof fn lemma_bytes_lt_prefix(p: Seq<u8>, x: Seq<u8>, y: Seq<u8>)
    ensures
        bytes_lt(p + x, p + y) == bytes_lt(x, y),
    decreases p.len(),
{
    if p.len() == 0 {
        assert(p + x =~= x);
        assert(p + y =~= y);
    } else {
        assert((p + x).drop_first() =~= p.drop_first() + x);
        assert((p + y).drop_first() =~= p.drop_first() + y);
        assert((p + x)[0] == (p + y)[0]);
        lemma_bytes_lt_prefix(p.drop_first(), x, y);
    }
}

proof fn lemma_leading_ranges(v: u32)
    by (bit_vector)
    ensures
        has_width_1_encoding(v) ==> leading_byte_width_1(v) <= 0x7F,
        has_width_2_encoding(v) ==> 0xC0 <= leading_byte_width_2(v) <= 0xDF,
        has_width_3_encoding(v) ==> 0xE0 <= leading_byte_width_3(v) <= 0xEF,
        has_width_4_encoding(v) ==> 0xF0 <= leading_byte_width_4(v) <= 0xF7,
{
}

proof fn lemma_width_1_order(v: u32, w: u32)
    by (bit_vector)
    requires
        has_width_1_encoding(v),
        has_width_1_encoding(w),
        v < w,
    ensures
        leading_byte_width_1(v) < leading_byte_width_1(w),
{
}

proof fn lemma_width_2_order(v: u32, w: u32)
    by (bit_vector)
    requires
        has_width_2_encoding(v),
        has_width_2_encoding(w),
        v < w,
    ensures
        leading_byte_width_2(v) < leading_byte_width_2(w) || (leading_byte_width_2(v)
            == leading_byte_width_2(w) && last_continuation_byte(v) < last_continuation_byte(w)),
{
}

proof fn lemma_width_3_order(v: u32, w: u32)
    by (bit_vector)
    requires
        has_width_3_encoding(v),
        has_width_3_encoding(w),
        v < w,
    ensures
        leading_byte_width_3(v) < leading_byte_width_3(w) || (leading_byte_width_3(v)
            == leading_byte_width_3(w) && second_last_continuation_byte(v)
            < second_last_continuation_byte(w)) || (leading_byte_width_3(v) == leading_byte_width_3(w)
            && second_last_continuation_byte(v) == second_last_continuation_byte(w)
            && last_continuation_byte(v) < last_continuation_byte(w)),
{
}

proof fn lemma_width_4_order(v: u32, w: u32)
    by (bit_vector)
    requires
        has_width_4_encoding(v),
        has_width_4_encoding(w),
        v < w,
    ensures
        leading_byte_width_4(v) < leading_byte_width_4(w) || (leading_byte_width_4(v)
            == leading_byte_width_4(w) && third_last_continuation_byte(v)
            < third_last_continuation_byte(w)) || (leading_byte_width_4(v) == leading_byte_width_4(w)
            && third_last_continuation_byte(v) == third_last_continuation_byte(w)
            && second_last_continuation_byte(v) < second_last_continuation_byte(w)) || (
        leading_byte_width_4(v) == leading_byte_width_4(w) && third_last_continuation_byte(v)
            == third_last_continuation_byte(w) && second_last_continuation_byte(v)
            == second_last_continuation_byte(w) && last_continuation_byte(v) < last_continuation_byte(
            w,
        )),
{
}

/// The first byte at which the encodings of two scalars differ, where the
/// smaller scalar's byte is the smaller.
proof fn lemma_scalar_lt(v: u32, w: u32) -> (k: int)
    requires
        is_scalar(v),
        is_scalar(w),
        v < w,
    ensures
        0 <= k < encode_scalar(v).len(),
        k < encode_scalar(w).len(),
        encode_scalar(v)[k] < encode_scalar(w)[k],
        forall|i: int| 0 <= i < k ==> encode_scalar(v)[i] == encode_scalar(w)[i],
{
    lemma_leading_ranges(v);
    lemma_leading_ranges(w);
    let ev = encode_scalar(v);
    let ew = encode_scalar(w);
    if has_width_1_encoding(v) && has_width_1_encoding(w) {
        lemma_width_1_order(v, w);
        0
    } else if has_width_2_encoding(v) && has_width_2_encoding(w) {
        lemma_width_2_order(v, w);
        if ev[0] < ew[0] {
            0
        } else {
            1
        }
    } else if has_width_3_encoding(v) && has_width_3_encoding(w) {
        lemma_width_3_order(v, w);
        if ev[0] < ew[0] {
            0
        } else if ev[1] < ew[1] {
            1
        } else {
            2
        }
    } else if has_width_4_encoding(v) && has_width_4_encoding(w) {
        lemma_width_4_order(v, w);
        if ev[0] < ew[0] {
            0
        } else if ev[1] < ew[1] {
            1
        } else if ev[2] < ew[2] {
            2
        } else {
            3
        }
    } else {
        0
    }
}

/// Text comes before other text exactly when its UTF-8 encoding comes before
/// the other's in byte order.
pub proof fn lemma_text_order_is_byte_order(a: Seq<char>, b: Seq<char>)
    ensures
        text_lt(a, b) == bytes_lt(encode_utf8(a), encode_utf8(b)),
    decreases a.len(),
{
    broadcast use vstd::utf8::char_is_scalar;

    let ea = encode_utf8(a);
    let eb = encode_utf8(b);
    if a.len() == 0 {
        if b.len() > 0 {
            assert(encode_scalar(b[0] as u32).len() > 0);
        }
    } else if b.len() == 0 {
        assert(encode_scalar(a[0] as u32).len() > 0);
    } else if a[0] == b[0] {
        let p = encode_scalar(a[0] as u32);
        lemma_bytes_lt_prefix(p, encode_utf8(a.drop_first()), encode_utf8(b.drop_first()));
        lemma_text_order_is_byte_order(a.drop_first(), b.drop_first());
    } else {
        let v = a[0] as u32;
        let w = b[0] as u32;
        let ev = encode_scalar(v);
        let ew = encode_scalar(w);
        vstd::utf8::char_is_scalar(a[0]);
        vstd::utf8::char_is_scalar(b[0]);
        vstd::utf8::char_u32_cast(a[0], v);
        vstd::utf8::char_u32_cast(b[0], w);
        assert(v != w);
        let k = if v < w {
            lemma_scalar_lt(v, w)
        } else {
            lemma_scalar_lt(w, v)
        };
        assert(ea == ev + encode_utf8(a.drop_first()));
        assert(eb == ew + encode_utf8(b.drop_first()));
        assert(ea[k] == ev[k]);
        assert(eb[k] == ew[k]);
        assert forall|i: int| 0 <= i < k implies ea[i] == eb[i] by {
            assert(ea[i] == ev[i]);
            assert(eb[i] == ew[i]);
        }
        lemma_bytes_lt_at(ea, eb, k);
    }
}

} // verus!
