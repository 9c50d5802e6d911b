//! Decoding a byte stream that arrives in chunks: a character whose bytes are split between
//! two chunks is held back until its remaining bytes arrive, so where the stream is cut does
//! not change the text.
use vstd::prelude::*;
use vstd::utf8::{
    decode_utf8, is_continuation_byte, is_leading_byte_width_1, is_leading_byte_width_2,
    is_leading_byte_width_3, is_leading_byte_width_4, length_of_first_scalar, pop_first_scalar,
    valid_first_scalar, valid_utf8,
};
use crate::ssh::session::{lossy_utf8, utf8_lossy};

verus! {

/// The number of bytes a UTF-8 sequence that starts with `b` takes, when that is more than
/// one; 0 otherwise.
pub open spec fn multi_byte_width(b: u8) -> int {
    if is_leading_byte_width_2(b) {
        2
    } else if is_leading_byte_width_3(b) {
        3
    } else if is_leading_byte_width_4(b) {
        4
    } else {
        0
    }
}

/// A multi-byte sequence starts at `j` and runs to the end of `b` without being complete.
pub open spec fn incomplete_at(b: Seq<u8>, j: int) -> bool {
    &&& 0 <= j < b.len()
    &&& multi_byte_width(b[j]) > b.len() - j
    &&& forall|i: int| j < i < b.len() ==> is_continuation_byte(#[trigger] b[i])
}

/// Where `b` is cut: before an incomplete sequence at its end, or at its end.
pub open spec fn utf8_cut(b: Seq<u8>) -> int {
    let n = b.len() as int;
    if incomplete_at(b, n - 1) {
        n - 1
    } else if incomplete_at(b, n - 2) {
        n - 2
    } else if incomplete_at(b, n - 3) {
        n - 3
    } else {
        n
    }
}

/// The bytes of `b` that can be decoded now.
pub open spec fn ready_part(b: Seq<u8>) -> Seq<u8> {
    b.take(utf8_cut(b))
}

/// The bytes of `b` held back for the next chunk.
pub open spec fn left_over(b: Seq<u8>) -> Seq<u8> {
    b.skip(utf8_cut(b))
}

/// The text of `b`: its decoding when it is valid UTF-8, else what `String::from_utf8_lossy`
/// makes of it.
pub open spec fn stream_text(b: Seq<u8>) -> Seq<char> {
    if valid_utf8(b) {
        decode_utf8(b)
    } else {
        utf8_lossy(b)
    }
}

fn width_of_lead(b: u8) -> (res: usize)
    ensures
        res == multi_byte_width(b),
{
    if 0xc0 <= b && b <= 0xdf {
        2
    } else if 0xe0 <= b && b <= 0xef {
        3
    } else if 0xf0 <= b && b <= 0xf7 {
        4
    } else {
        0
    }
}

fn incomplete_at_exec(b: &Vec<u8>, j: usize) -> (res: bool)
    requires
        j < b@.len(),
    ensures
        res == incomplete_at(b@, j as int),
{
    let n = b.len();
    if width_of_lead(b[j]) <= n - j {
        return false;
    }
    let mut i = j + 1;
    while i < n
        invariant
            j < i <= n,
            n == b@.len(),
            forall|k: int| j < k < i ==> is_continuation_byte(#[trigger] b@[k]),
        decreases n - i,
    {
        if !(0x80 <= b[i] && b[i] <= 0xbf) {
            return false;
        }
        i = i + 1;
    }
    true
}

/// Joins the bytes held back, `carry`, with the new `bytes`; returns the text that can be
/// decoded now and the bytes held back for the next chunk.
pub fn decode_available(carry: &[u8], bytes: &[u8]) -> (res: (String, Vec<u8>))
    ensures
        res.0@ == stream_text(ready_part(carry@ + bytes@)),
        res.1@ == left_over(carry@ + bytes@),
{
    let mut all: Vec<u8> = Vec::new();
    all.extend_from_slice(carry);
    all.extend_from_slice(bytes);
    let n = all.len();
    let cut: usize = if n >= 1 && incomplete_at_exec(&all, n - 1) {
        n - 1
    } else if n >= 2 && incomplete_at_exec(&all, n - 2) {
        n - 2
    } else if n >= 3 && incomplete_at_exec(&all, n - 3) {
        n - 3
    } else {
        n
    };
    assert(cut == utf8_cut(all@));
    let mut ready: Vec<u8> = Vec::new();
    let mut rest: Vec<u8> = Vec::new();
    let mut i: usize = 0;
    while i < n
        invariant
            n == all@.len(),
            cut <= n,
            i <= n,
            ready@ == all@.take(if i < cut { i as int } else { cut as int }),
            rest@ == all@.subrange(cut as int, if i < cut { cut as int } else { i as int }),
        decreases n - i,
    {
        if i < cut {
            ready.push(all[i]);
        } else {
            rest.push(all[i]);
        }
        i = i + 1;
    }
    assert(ready@ =~= all@.take(cut as int));
    assert(rest@ =~= all@.skip(cut as int));
    assert(all@ =~= carry@ + bytes@);
    (lossy_utf8(ready.as_slice()), rest)
}

/// Splitting a valid sequence: every position lies in a scalar that starts at a boundary `j`
/// (both sides of `j` valid), or is itself a boundary.
proof fn lemma_scalar_around(t: Seq<u8>, i: int) -> (j: int)
    requires
        valid_utf8(t),
        0 <= i <= t.len(),
    ensures
        0 <= j <= i,
        valid_utf8(t.take(j)),
        valid_utf8(t.skip(j)),
        j == i || (t.skip(j).len() > 0 && i < j + length_of_first_scalar(t.skip(j))),
    decreases t.len(),
{
    if i == 0 {
        assert(t.take(0) =~= Seq::<u8>::empty());
        assert(t.skip(0) =~= t);
        0
    } else {
        let l = length_of_first_scalar(t);
        assert(t.skip(0) =~= t);
        assert(t.take(0) =~= Seq::<u8>::empty());
        if i < l {
            0
        } else {
            let rest = pop_first_scalar(t);
            let j2 = lemma_scalar_around(rest, i - l);
            let head = t.take(l);
            assert(valid_utf8(head)) by {
                assert(valid_first_scalar(t));
                assert(1 <= l <= 4 && l <= t.len());
                assert(head.len() == l);
                assert(forall|x: int| 0 <= x < l ==> #[trigger] head[x] == t[x]);
                if l >= 1 { assert(head[0] == t[0]); }
                if l >= 2 { assert(head[1] == t[1]); }
                if l >= 3 { assert(head[2] == t[2]); }
                if l >= 4 { assert(head[3] == t[3]); }
                assert(valid_first_scalar(head));
                assert(length_of_first_scalar(head) == l);
                assert(pop_first_scalar(head) =~= Seq::<u8>::empty());
                reveal_with_fuel(valid_utf8, 2);
            }
            vstd::utf8::valid_utf8_concat(head, rest.take(j2));
            assert(t.take(l + j2) =~= head + rest.take(j2));
            assert(t.skip(l + j2) =~= rest.skip(j2));
            l + j2
        }
    }
}

/// A valid sequence has no incomplete sequence at its end, so none of it is held back.
pub proof fn lemma_valid_is_not_held_back(b: Seq<u8>)
    requires
        valid_utf8(b),
    ensures
        utf8_cut(b) == b.len(),
{
    let n = b.len() as int;
    assert forall|j: int| n - 3 <= j < n implies !incomplete_at(b, j) by {
        if incomplete_at(b, j) && 0 <= j {
            let j0 = lemma_scalar_around(b, j);
            let s = b.skip(j0);
            if j0 == j {
                assert(s[0] == b[j]);
                assert(valid_first_scalar(s));
            } else {
                assert(valid_first_scalar(s));
                assert(s[j - j0] == b[j]);
            }
        }
    }
}

/// The part of `a + c` held back after `a` starts at a boundary of `a + c` that lies within `a`.
proof fn lemma_cut_is_boundary(a: Seq<u8>, c: Seq<u8>)
    requires
        valid_utf8(a + c),
    ensures
        0 <= utf8_cut(a) <= a.len(),
        valid_utf8((a + c).take(utf8_cut(a))),
        valid_utf8((a + c).skip(utf8_cut(a))),
{
    let w = a + c;
    let n = a.len() as int;
    let j = lemma_scalar_around(w, n);
    if j == n {
        assert(w.take(n) =~= a);
        lemma_valid_is_not_held_back(a);
    } else {
        let s = w.skip(j);
        assert(valid_first_scalar(s));
        let l = length_of_first_scalar(s);
        assert(s[0] == a[j]);
        assert(forall|i: int| 0 < i < l ==> is_continuation_byte(#[trigger] s[i]));
        assert(multi_byte_width(a[j]) == l);
        assert forall|i: int| j < i < n implies is_continuation_byte(#[trigger] a[i]) by {
            assert(s[i - j] == a[i]);
        }
        assert(incomplete_at(a, j));
        assert forall|i: int| j < i < n implies !incomplete_at(a, i) by {
            assert(s[i - j] == a[i]);
            assert(is_continuation_byte(a[i]));
        }
    }
}

/// Where a valid stream is cut into two chunks does not matter: the text decoded after the
/// first chunk followed by the text decoded after the second is the whole stream's text, and
/// nothing is held back at the end.
pub proof fn lemma_chunked_decoding(a: Seq<u8>, c: Seq<u8>)
    requires
        valid_utf8(a + c),
    ensures
        stream_text(ready_part(a)) + stream_text(ready_part(left_over(a) + c)) == decode_utf8(a + c),
        left_over(left_over(a) + c).len() == 0,
{
    let w = a + c;
    lemma_cut_is_boundary(a, c);
    let k = utf8_cut(a);
    assert(ready_part(a) =~= w.take(k));
    assert(left_over(a) + c =~= w.skip(k));
    let second = w.skip(k);
    lemma_valid_is_not_held_back(second);
    assert(ready_part(second) =~= second);
    assert(left_over(second) =~= Seq::<u8>::empty());
    assert(w.take(k) =~= w.subrange(0, k));
    assert(w.skip(k) =~= w.subrange(k, w.len() as int));
    assert(vstd::utf8::is_char_boundary(w, k)) by {
        lemma_boundary_from_split(w, k);
    }
    vstd::utf8::decode_utf8_split(w, k);
}

/// A position where a valid sequence splits into two valid sequences is a character boundary.
proof fn lemma_boundary_from_split(w: Seq<u8>, k: int)
    requires
        valid_utf8(w),
        0 <= k <= w.len(),
        valid_utf8(w.skip(k)),
    ensures
        vstd::utf8::is_char_boundary(w, k),
{
    vstd::utf8::is_char_boundary_start_end_of_seq(w);
    if 0 < k < w.len() {
        let s = w.skip(k);
        assert(valid_first_scalar(s));
        assert(s[0] == w[k]);
        assert(!is_continuation_byte(w[k]));
        vstd::utf8::is_char_boundary_iff_not_is_continuation_byte(w, k);
    }
}

} // verus!
