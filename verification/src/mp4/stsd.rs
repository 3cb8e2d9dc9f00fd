//! Sample description box (`stsd`): the sample entries (codec descriptions)
//! of a track.

use crate::buf::{bytes_mut_extend, bytes_mut_view};
use crate::endian::{be_u32, push_u32};
use crate::mp4::encode::{
    concat_bytes, fourcc, lemma_concat_bytes_push, lemma_concat_bytes_split, spec_fourcc,
};
use crate::mp4::{
    box_fits, box_size_agrees, lemma_box_bytes_len, spec_box_bytes, spec_box_size,
    AvcSampleEntryBox, FullBoxHeader, Mp4Box, Mp4BoxError, Mpeg4AudioSampleEntryBox,
};
use bytes::BytesMut;
use crate::mp4::lemma_box_bytes_bound;
use vstd::prelude::*;

verus! {

pub enum SampleEntry {
    Avc(AvcSampleEntryBox),
    Mp4a(Mpeg4AudioSampleEntryBox),
}

impl SampleEntry {
    pub open spec fn spec_bytes(self) -> Seq<u8> {
        match self {
            SampleEntry::Avc(avc) => spec_box_bytes(&avc),
            SampleEntry::Mp4a(mp4a) => spec_box_bytes(&mp4a),
        }
    }

    pub open spec fn spec_size(self) -> nat {
        match self {
            SampleEntry::Avc(avc) => spec_box_size(&avc),
            SampleEntry::Mp4a(mp4a) => spec_box_size(&mp4a),
        }
    }

    pub open spec fn spec_fits(self) -> bool {
        match self {
            SampleEntry::Avc(avc) => box_fits(&avc),
            SampleEntry::Mp4a(mp4a) => box_fits(&mp4a),
        }
    }

    pub open spec fn spec_size_agrees(self) -> bool {
        match self {
            SampleEntry::Avc(avc) => box_size_agrees(&avc),
            SampleEntry::Mp4a(mp4a) => box_size_agrees(&mp4a),
        }
    }

    proof fn lemma_size_agrees(self)
        requires
            self.spec_fits(),
        ensures
            self.spec_size_agrees() ==> self.spec_size() == self.spec_bytes().len(),
    {
        match self {
            SampleEntry::Avc(avc) => lemma_box_bytes_len(&avc),
            SampleEntry::Mp4a(mp4a) => lemma_box_bytes_len(&mp4a),
        }
    }

    /// The size of the entry's box.
    fn size(&self) -> (r: u64)
        requires
            self.spec_size() + 8 <= u64::MAX,
        ensures
            r == self.spec_size(),
    {
        match self {
            SampleEntry::Avc(avc) => avc.size(),
            SampleEntry::Mp4a(mp4a) => mp4a.size(),
        }
    }
}

/// The sum of the sizes of the entries of `s`.
pub open spec fn entries_size(s: Seq<SampleEntry>) -> nat
    decreases s.len(),
{
    if s.len() == 0 {
        0
    } else {
        entries_size(s.drop_last()) + s.last().spec_size()
    }
}

/// The serialized entries of `s`, one after the other.
pub open spec fn entries_bytes(s: Seq<SampleEntry>) -> Seq<u8> {
    concat_bytes(s, |e: SampleEntry| e.spec_bytes())
}

proof fn lemma_entries_size_prefix(s: Seq<SampleEntry>, i: int)
    requires
        0 <= i <= s.len(),
    ensures
        entries_size(s.take(i)) <= entries_size(s),
    decreases s.len(),
{
    if i < s.len() {
        lemma_entries_size_prefix(s.drop_last(), i);
        assert(s.drop_last().take(i) =~= s.take(i));
    } else {
        assert(s.take(i) =~= s);
    }
}

proof fn lemma_entries_bytes_bound(s: Seq<SampleEntry>)
    requires
        forall|i: int| 0 <= i < s.len() ==> #[trigger] s[i].spec_fits(),
    ensures
        entries_bytes(s).len() <= 2 * entries_size(s),
    decreases s.len(),
{
    if s.len() > 0 {
        let t = s.drop_last();
        assert forall|i: int| 0 <= i < t.len() implies #[trigger] t[i].spec_fits() by {
            assert(s[i].spec_fits());
        }
        lemma_entries_bytes_bound(t);
        assert(s[s.len() - 1].spec_fits());
        match s.last() {
            SampleEntry::Avc(avc) => lemma_box_bytes_bound(&avc),
            SampleEntry::Mp4a(mp4a) => lemma_box_bytes_bound(&mp4a),
        }
        lemma_concat_bytes_push(s, s.len() - 1, |e: SampleEntry| e.spec_bytes());
        assert(s.take(s.len() - 1) =~= t);
        assert(s.take(s.len() as int) =~= s);
    }
}

proof fn lemma_entries_size_agrees(s: Seq<SampleEntry>)
    requires
        forall|i: int| 0 <= i < s.len() ==> #[trigger] s[i].spec_fits(),
        forall|i: int| 0 <= i < s.len() ==> #[trigger] s[i].spec_size_agrees(),
    ensures
        entries_size(s) == entries_bytes(s).len(),
    decreases s.len(),
{
    if s.len() > 0 {
        let t = s.drop_last();
        assert forall|i: int| 0 <= i < t.len() implies #[trigger] t[i].spec_fits() by {
            assert(s[i].spec_fits());
        }
        assert forall|i: int| 0 <= i < t.len() implies #[trigger] t[i].spec_size_agrees() by {
            assert(s[i].spec_size_agrees());
        }
        lemma_entries_size_agrees(t);
        assert(s[s.len() - 1].spec_fits());
        assert(s[s.len() - 1].spec_size_agrees());
        s.last().lemma_size_agrees();
    }
}

pub struct SampleDescriptionBox {
    pub entries: Vec<SampleEntry>,
}

impl SampleDescriptionBox {
    /// What the box's contents, reported size and conditions are made of.
    pub proof fn lemma_unfold(&self)
        ensures
            self.spec_contents() == ({
            be_u32(self.entries@.len() as u32) + entries_bytes(self.entries@)
            }),
            self.spec_content_size() == ({
            4 + entries_size(self.entries@)
            }),
            self.spec_well_formed() == ({
            forall|i: int| 0 <= i < self.entries@.len() ==> #[trigger] self.entries@[i].spec_fits()
            }),
            self.spec_sizes_agree() == ({
            forall|i: int|
                0 <= i < self.entries@.len() ==> #[trigger] self.entries@[i].spec_size_agrees()
            }),
    {
    }
}

impl Mp4Box for SampleDescriptionBox {
    open spec fn spec_name() -> Seq<u8> {
        spec_fourcc(0x73, 0x74, 0x73, 0x64) // "stsd"
    }

    open spec fn spec_full_header(&self) -> Option<FullBoxHeader> {
        Some(FullBoxHeader::spec_new(0, 0))
    }

    closed spec fn spec_contents(&self) -> Seq<u8> {
        be_u32(self.entries@.len() as u32) + entries_bytes(self.entries@)
    }

    closed spec fn spec_content_size(&self) -> nat {
        4 + entries_size(self.entries@)
    }

    closed spec fn spec_well_formed(&self) -> bool {
        forall|i: int| 0 <= i < self.entries@.len() ==> #[trigger] self.entries@[i].spec_fits()
    }

    closed spec fn spec_sizes_agree(&self) -> bool {
        forall|i: int|
            0 <= i < self.entries@.len() ==> #[trigger] self.entries@[i].spec_size_agrees()
    }

    proof fn lemma_sizes_agree(&self) {
        lemma_entries_size_agrees(self.entries@);
    }

    proof fn lemma_name_len() {
    }

    proof fn lemma_contents_len_bound(&self) {
        lemma_entries_bytes_bound(self.entries@);
    }

    fn name() -> (r: [u8; 4]) {
        fourcc(0x73, 0x74, 0x73, 0x64)
    }

    fn get_full_box_header(&self) -> (r: Option<FullBoxHeader>) {
        Some(FullBoxHeader::new(0, 0))
    }

    fn content_size(&self) -> (r: u64) {
        let mut size: u64 = 4;
        let mut i: usize = 0;
        while i < self.entries.len()
            invariant
                i <= self.entries@.len(),
                self.spec_content_size() + 16 <= u64::MAX,
                size == 4 + entries_size(self.entries@.take(i as int)),
            decreases self.entries@.len() - i,
        {
            proof {
                assert(self.entries@.take(i + 1).drop_last() =~= self.entries@.take(i as int));
                lemma_entries_size_prefix(self.entries@, i + 1);
            }
            size = size + self.entries[i].size();
            i = i + 1;
        }
        assert(self.entries@.take(i as int) =~= self.entries@);
        size
    }

    fn write_box_contents(&self, writer: &mut BytesMut) -> (r: Result<(), Mp4BoxError>) {
        let mut contents: Vec<u8> = Vec::new();
        push_u32(&mut contents, self.entries.len() as u32);
        bytes_mut_extend(writer, contents.as_slice());
        let ghost start = bytes_mut_view(*writer);
        let mut i: usize = 0;
        while i < self.entries.len()
            invariant
                i <= self.entries@.len(),
                self.spec_well_formed(),
                start.len() + entries_bytes(self.entries@).len() <= isize::MAX,
                bytes_mut_view(*writer) == start + entries_bytes(self.entries@.take(i as int)),
            decreases self.entries@.len() - i,
        {
            proof {
                lemma_concat_bytes_push(self.entries@, i as int, |e: SampleEntry| e.spec_bytes());
                lemma_concat_bytes_split(self.entries@, i + 1, |e: SampleEntry| e.spec_bytes());
                assert(self.entries@[i as int].spec_fits());
            }
            match &self.entries[i] {
                SampleEntry::Avc(avc) => avc.write(writer)?,
                SampleEntry::Mp4a(mp4a) => mp4a.write(writer)?,
            }
            i = i + 1;
        }
        assert(self.entries@.take(i as int) =~= self.entries@);
        assert(bytes_mut_view(*writer) =~= bytes_mut_view(*old(writer)) + self.spec_contents());
        Ok(())
    }
}

} // verus!
