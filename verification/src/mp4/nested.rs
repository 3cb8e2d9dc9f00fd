//! Sequences of boxes nested in another box: their serialized form, their
//! reported sizes, and how to size and write them.

use crate::buf::bytes_mut_view;
use crate::mp4::encode::{concat_bytes, lemma_concat_bytes_push, lemma_concat_bytes_split};
use crate::mp4::{
    box_fits, box_size_agrees, lemma_box_bytes_bound, lemma_box_bytes_len, spec_box_bytes, spec_box_size, Mp4Box,
    Mp4BoxError,
};
use bytes::BytesMut;
use vstd::prelude::*;

verus! {

/// The serialized forms of the boxes of `s`, one after the other.
pub open spec fn boxes_bytes<B: Mp4Box>(s: Seq<B>) -> Seq<u8> {
    concat_bytes(s, |b: B| spec_box_bytes(&b))
}

/// The sum of the sizes that the boxes of `s` report.
pub open spec fn boxes_size<B: Mp4Box>(s: Seq<B>) -> nat
    decreases s.len(),
{
    if s.len() == 0 {
        0
    } else {
        boxes_size(s.drop_last()) + spec_box_size(&s.last())
    }
}

/// Every box of `s` can be written.
pub open spec fn all_fit<B: Mp4Box>(s: Seq<B>) -> bool {
    forall|i: int| 0 <= i < s.len() ==> #[trigger] box_fits(&s[i])
}

/// Every box of `s` reports the number of bytes it takes.
pub open spec fn all_sizes_agree<B: Mp4Box>(s: Seq<B>) -> bool {
    forall|i: int| 0 <= i < s.len() ==> #[trigger] box_size_agrees(&s[i])
}

proof fn lemma_boxes_size_prefix<B: Mp4Box>(s: Seq<B>, i: int)
    requires
        0 <= i <= s.len(),
    ensures
        boxes_size(s.take(i)) <= boxes_size(s),
    decreases s.len(),
{
    if i < s.len() {
        lemma_boxes_size_prefix(s.drop_last(), i);
        assert(s.drop_last().take(i) =~= s.take(i));
    } else {
        assert(s.take(i) =~= s);
    }
}

/// When the boxes of `s` report the number of bytes they take, their sizes
/// add up to the length of their serialized forms.
pub proof fn lemma_boxes_size_agrees<B: Mp4Box>(s: Seq<B>)
    requires
        all_fit(s),
        all_sizes_agree(s),
    ensures
        boxes_size(s) == boxes_bytes(s).len(),
    decreases s.len(),
{
    if s.len() > 0 {
        let t = s.drop_last();
        assert forall|i: int| 0 <= i < t.len() implies #[trigger] box_fits(&t[i]) by {
            assert(box_fits(&s[i]));
        }
        assert forall|i: int| 0 <= i < t.len() implies #[trigger] box_size_agrees(&t[i]) by {
            assert(box_size_agrees(&s[i]));
        }
        lemma_boxes_size_agrees(t);
        assert(box_fits(&s[s.len() - 1]));
        assert(box_size_agrees(&s[s.len() - 1]));
        lemma_box_bytes_len(&s.last());
    }
}

/// Boxes one after the other take at most twice the sizes they report.
pub proof fn lemma_boxes_bytes_bound<B: Mp4Box>(s: Seq<B>)
    requires
        all_fit(s),
    ensures
        boxes_bytes(s).len() <= 2 * boxes_size(s),
    decreases s.len(),
{
    if s.len() > 0 {
        let t = s.drop_last();
        assert forall|i: int| 0 <= i < t.len() implies #[trigger] box_fits(&t[i]) by {
            assert(box_fits(&s[i]));
        }
        lemma_boxes_bytes_bound(t);
        assert(box_fits(&s[s.len() - 1]));
        lemma_box_bytes_bound(&s.last());
        lemma_concat_bytes_push(s, s.len() - 1, |b: B| spec_box_bytes(&b));
        assert(s.take(s.len() - 1) =~= t);
        assert(s.take(s.len() as int) =~= s);
    }
}

/// The sum of the sizes the boxes report.
pub fn boxes_content_size<B: Mp4Box>(boxes: &Vec<B>) -> (r: u64)
    requires
        boxes_size(boxes@) + 16 <= u64::MAX,
    ensures
        r == boxes_size(boxes@),
{
    let mut total: u64 = 0;
    let mut i: usize = 0;
    while i < boxes.len()
        invariant
            i <= boxes@.len(),
            boxes_size(boxes@) + 16 <= u64::MAX,
            total == boxes_size(boxes@.take(i as int)),
        decreases boxes@.len() - i,
    {
        proof {
            assert(boxes@.take(i + 1).drop_last() =~= boxes@.take(i as int));
            lemma_boxes_size_prefix(boxes@, i + 1);
        }
        let s = boxes[i].size();
        total = total + s;
        i = i + 1;
    }
    assert(boxes@.take(i as int) =~= boxes@);
    total
}

/// Appends each box of `boxes`, in order.
pub fn write_boxes<B: Mp4Box>(boxes: &Vec<B>, writer: &mut BytesMut) -> (r: Result<(), Mp4BoxError>)
    requires
        all_fit(boxes@),
        bytes_mut_view(*old(writer)).len() + boxes_bytes(boxes@).len() <= isize::MAX,
    ensures
        r is Ok,
        bytes_mut_view(*final(writer)) == bytes_mut_view(*old(writer)) + boxes_bytes(boxes@),
{
    let mut i: usize = 0;
    while i < boxes.len()
        invariant
            i <= boxes@.len(),
            all_fit(boxes@),
            bytes_mut_view(*old(writer)).len() + boxes_bytes(boxes@).len() <= isize::MAX,
            bytes_mut_view(*writer) == bytes_mut_view(*old(writer)) + boxes_bytes(
                boxes@.take(i as int),
            ),
        decreases boxes@.len() - i,
    {
        proof {
            lemma_concat_bytes_push(boxes@, i as int, |b: B| spec_box_bytes(&b));
            lemma_concat_bytes_split(boxes@, i + 1, |b: B| spec_box_bytes(&b));
            assert(box_fits(&boxes@[i as int]));
        }
        let _ = boxes[i].write(writer);
        i = i + 1;
    }
    assert(boxes@.take(i as int) =~= boxes@);
    Ok(())
}

} // verus!

verus! {

/// The serialized form of an optional box: the box's, or nothing.
pub open spec fn opt_box_bytes<B: Mp4Box>(o: Option<B>) -> Seq<u8> {
    match o {
        Some(b) => spec_box_bytes(&b),
        None => Seq::empty(),
    }
}

/// The size an optional box reports, zero when absent.
pub open spec fn opt_box_size<B: Mp4Box>(o: Option<B>) -> nat {
    match o {
        Some(b) => spec_box_size(&b),
        None => 0,
    }
}

pub open spec fn opt_box_fits<B: Mp4Box>(o: Option<B>) -> bool {
    match o {
        Some(b) => box_fits(&b),
        None => true,
    }
}

pub open spec fn opt_box_size_agrees<B: Mp4Box>(o: Option<B>) -> bool {
    match o {
        Some(b) => box_size_agrees(&b),
        None => true,
    }
}

/// An optional box whose size agrees takes the size it reports.
pub proof fn lemma_opt_box_size_agrees<B: Mp4Box>(o: Option<B>)
    requires
        opt_box_fits(o),
    ensures
        opt_box_size_agrees(o) ==> opt_box_size(o) == opt_box_bytes(o).len(),
{
    match o {
        Some(b) => lemma_box_bytes_len(&b),
        None => {},
    }
}

/// An optional box takes at most twice the size it reports.
pub proof fn lemma_opt_box_bytes_bound<B: Mp4Box>(o: Option<B>)
    requires
        opt_box_fits(o),
    ensures
        opt_box_bytes(o).len() <= 2 * opt_box_size(o),
{
    match o {
        Some(b) => lemma_box_bytes_bound(&b),
        None => {},
    }
}

} // verus!
