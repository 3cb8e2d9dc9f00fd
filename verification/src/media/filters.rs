//! The bookkeeping of the frame filters: which streams a bitstream framer
//! converts, and which readers a frame queue still feeds.

use crate::media::{spec_with_bitstream_format, BitstreamFraming, Frame, Stream};
use async_channel::{Receiver, Sender};
use vstd::prelude::*;

verus! {

/// Whether a stream's bitstream is converted to `target`: a video stream
/// whose framing differs.
pub open spec fn spec_needs_conversion(s: Stream, target: BitstreamFraming) -> bool {
    s.spec_bitstream_format() matches Some(f) && f != target
}

/// `t` is stream `s` as a framer to `target` passes it on: the same stream,
/// with its framing set to `target` when it is converted.
pub open spec fn spec_framed_stream(s: Stream, t: Stream, target: BitstreamFraming) -> bool {
    &&& t.id == s.id
    &&& t.timebase == s.timebase
    &&& *t.codec == (if spec_needs_conversion(s, target) {
        spec_with_bitstream_format(*s.codec, target)
    } else {
        *s.codec
    })
}

/// The conversions a framer to `target` records for `streams`: each
/// converted stream's ID and source framing, in order.
pub open spec fn spec_conversions(streams: Seq<Stream>, target: BitstreamFraming) -> Seq<
    (u32, BitstreamFraming),
>
    decreases streams.len(),
{
    if streams.len() == 0 {
        Seq::empty()
    } else {
        let rest = spec_conversions(streams.drop_last(), target);
        let s = streams.last();
        if spec_needs_conversion(s, target) {
            rest.push((s.id, s.spec_bitstream_format()->0))
        } else {
            rest
        }
    }
}

/// The source framing recorded first for stream `id`.
pub open spec fn spec_first_source(c: Seq<(u32, BitstreamFraming)>, id: u32) -> Option<
    BitstreamFraming,
>
    decreases c.len(),
{
    if c.len() == 0 {
        None
    } else if c[0].0 == id {
        Some(c[0].1)
    } else {
        spec_first_source(c.drop_first(), id)
    }
}

/// The first stream of `streams` with ID `id`.
pub open spec fn spec_stream_with_id(streams: Seq<Stream>, id: u32) -> Option<Stream>
    decreases streams.len(),
{
    if streams.len() == 0 {
        None
    } else if streams[0].id == id {
        Some(streams[0])
    } else {
        spec_stream_with_id(streams.drop_first(), id)
    }
}

/// What a framer does with a frame of one stream.
pub enum FramePlan {
    /// The stream is not converted: the frame goes on unchanged.
    PassOn,
    /// The frame's bitstream is converted from `source` to the target
    /// framing, and the frame is passed on as a frame of `stream`.
    Convert { source: BitstreamFraming, stream: Stream },
    /// The stream is recorded as converted, but no stream with its ID was
    /// passed on by the last start.
    UnknownStream,
}

/// The plan for a frame of stream `id`, given the recorded conversions
/// `c` and the streams `streams` passed on.
pub open spec fn spec_frame_plan(c: Seq<(u32, BitstreamFraming)>, streams: Seq<Stream>, id: u32) -> FramePlan {
    match spec_first_source(c, id) {
        None => FramePlan::PassOn,
        Some(source) => match spec_stream_with_id(streams, id) {
            Some(stream) => FramePlan::Convert { source, stream },
            None => FramePlan::UnknownStream,
        },
    }
}

/// Converts the bitstreams of video streams to one framing: it records,
/// when started, which streams it converts and from what, and for each
/// frame of such a stream, the framing to convert from and the stream as
/// converted.
pub struct BitstreamFramerFilter {
    streams: Vec<Stream>,
    stream_target_framings: Vec<(u32, BitstreamFraming)>,
    target_framing: BitstreamFraming,
}

impl BitstreamFramerFilter {
    pub closed spec fn spec_streams(&self) -> Seq<Stream> {
        self.streams@
    }

    pub closed spec fn spec_conversions(&self) -> Seq<(u32, BitstreamFraming)> {
        self.stream_target_framings@
    }

    pub closed spec fn spec_target(&self) -> BitstreamFraming {
        self.target_framing
    }

    /// A framer to `target_framing` that converts nothing yet.
    pub fn new(target_framing: BitstreamFraming) -> (r: Self)
        ensures
            r.spec_streams() == Seq::<Stream>::empty(),
            r.spec_conversions() == Seq::<(u32, BitstreamFraming)>::empty(),
            r.spec_target() == target_framing,
    {
        BitstreamFramerFilter {
            streams: Vec::new(),
            stream_target_framings: Vec::new(),
            target_framing,
        }
    }

    /// Starts on `streams`: each video stream with another framing is
    /// recorded with its framing and passed on with the target framing. The
    /// streams passed on are returned and kept.
    pub fn start(&mut self, streams: Vec<Stream>) -> (r: Vec<Stream>)
        ensures
            r@.len() == streams@.len(),
            forall|i: int|
                0 <= i < streams@.len() ==> spec_framed_stream(
                    #[trigger] streams@[i],
                    r@[i],
                    old(self).spec_target(),
                ),
            final(self).spec_conversions() == old(self).spec_conversions() + spec_conversions(
                streams@,
                old(self).spec_target(),
            ),
            final(self).spec_streams() == r@,
            final(self).spec_target() == old(self).spec_target(),
    {
        let target = self.target_framing;
        let mut out: Vec<Stream> = Vec::new();
        let mut i: usize = 0;
        while i < streams.len()
            invariant
                i <= streams@.len(),
                target == old(self).spec_target(),
                self.target_framing == target,
                out@.len() == i,
                forall|j: int| 0 <= j < i ==> spec_framed_stream(#[trigger] streams@[j], out@[j], target),
                self.stream_target_framings@ == old(self).spec_conversions() + spec_conversions(
                    streams@.take(i as int),
                    target,
                ),
            decreases streams@.len() - i,
        {
            let mut stream = streams[i].copied();
            proof {
                assert(streams@.take(i + 1).drop_last() =~= streams@.take(i as int));
                assert(streams@.take(i + 1).last() == streams@[i as int]);
            }
            match stream.bitstream_format() {
                Some(bitstream_format) => {
                    if bitstream_format != target {
                        stream.set_bitstream_format(target);
                        self.stream_target_framings.push((stream.id, bitstream_format));
                        proof {
                            assert(self.stream_target_framings@ =~= old(self).spec_conversions()
                                + spec_conversions(streams@.take(i + 1), target));
                        }
                    }
                },
                None => {},
            }
            out.push(stream);
            i = i + 1;
        }
        assert(streams@.take(i as int) =~= streams@);
        let mut kept: Vec<Stream> = Vec::new();
        let mut j: usize = 0;
        while j < out.len()
            invariant
                j <= out@.len(),
                kept@ == out@.take(j as int),
            decreases out@.len() - j,
        {
            kept.push(out[j].copied());
            j = j + 1;
            assert(kept@ =~= out@.take(j as int));
        }
        assert(kept@ =~= out@);
        self.streams = kept;
        out
    }

    /// The framing the framer converts to.
    pub fn target_framing(&self) -> (r: BitstreamFraming)
        ensures
            r == self.spec_target(),
    {
        self.target_framing
    }

    /// The framing a frame of stream `stream_id` comes in, when the stream
    /// is converted: the one recorded first for it.
    pub fn source_framing(&self, stream_id: u32) -> (r: Option<BitstreamFraming>)
        ensures
            r == spec_first_source(self.spec_conversions(), stream_id),
    {
        let mut i: usize = 0;
        assert(self.stream_target_framings@.skip(0) =~= self.stream_target_framings@);
        while i < self.stream_target_framings.len()
            invariant
                i <= self.stream_target_framings@.len(),
                spec_first_source(self.spec_conversions(), stream_id) == spec_first_source(
                    self.stream_target_framings@.skip(i as int),
                    stream_id,
                ),
            decreases self.stream_target_framings@.len() - i,
        {
            let (id, f) = self.stream_target_framings[i];
            assert(self.stream_target_framings@.skip(i as int).drop_first()
                =~= self.stream_target_framings@.skip(i + 1));
            if id == stream_id {
                return Some(f);
            }
            i = i + 1;
        }
        assert(self.stream_target_framings@.skip(i as int) =~= Seq::<(u32, BitstreamFraming)>::empty());
        None
    }

    /// The stream with ID `stream_id` as passed on, the first one kept.
    pub fn stream_with_id(&self, stream_id: u32) -> (r: Option<Stream>)
        ensures
            r == spec_stream_with_id(self.spec_streams(), stream_id),
    {
        let mut k: usize = 0;
        assert(self.streams@.skip(0) =~= self.streams@);
        while k < self.streams.len()
            invariant
                k <= self.streams@.len(),
                spec_stream_with_id(self.spec_streams(), stream_id) == spec_stream_with_id(
                    self.streams@.skip(k as int),
                    stream_id,
                ),
            decreases self.streams@.len() - k,
        {
            assert(self.streams@.skip(k as int).drop_first() =~= self.streams@.skip(k + 1));
            if self.streams[k].id == stream_id {
                return Some(self.streams[k].copied());
            }
            k = k + 1;
        }
        assert(self.streams@.skip(k as int) =~= Seq::<Stream>::empty());
        None
    }

    /// What to do with a frame of stream `stream_id`: pass it on when the
    /// stream is not converted, else convert it from the framing recorded
    /// first for the stream and pass it on as a frame of the stream kept
    /// with that ID.
    pub fn frame_plan(&self, stream_id: u32) -> (r: FramePlan)
        ensures
            r == spec_frame_plan(self.spec_conversions(), self.spec_streams(), stream_id),
    {
        match self.source_framing(stream_id) {
            None => FramePlan::PassOn,
            Some(source) => match self.stream_with_id(stream_id) {
                Some(stream) => FramePlan::Convert { source, stream },
                None => FramePlan::UnknownStream,
            },
        }
    }
}

#[verifier::external_type_specification]
#[verifier::external_body]
#[verifier::reject_recursive_types(T)]
pub struct ExSender<T>(async_channel::Sender<T>);

#[verifier::external_type_specification]
#[verifier::external_body]
#[verifier::reject_recursive_types(T)]
pub struct ExReceiver<T>(async_channel::Receiver<T>);

/// `Sender::try_send` (async-channel) of `frame` on the channel of
/// `target`, which the call takes: the same sender back when the frame
/// went into the channel, `None` when the channel was full or closed, the
/// sender then being dropped. Which of the two comes depends on the
/// channel's state, which the readers change; it is not stated.
#[verifier::external_body]
fn try_send_frame(target: Sender<Frame>, frame: Frame) -> (r: Option<Sender<Frame>>)
    ensures
        r matches Some(s) ==> s == target,
{
    match target.try_send(frame) {
        Ok(()) => Some(target),
        Err(_) => None,
    }
}

/// The number of frames the channel of a sender holds at most.
pub uninterp spec fn spec_sender_capacity(s: Sender<Frame>) -> nat;

/// `async_channel::bounded(cap)`: a new channel holding up to `cap` frames.
/// It panics for a capacity of zero; `requires` leaves that out. That the
/// two ends belong together is not stated.
#[verifier::external_body]
fn bounded_frame_channel(cap: usize) -> (r: (Sender<Frame>, Receiver<Frame>))
    requires
        cap > 0,
    ensures
        spec_sender_capacity(r.0) == cap,
{
    async_channel::bounded(cap)
}

/// The frames a reader of the queue can buffer before it is dropped.
pub const RECEIVER_CAPACITY: usize = 1024;

/// The targets that are kept: those for which `sent` is true, in order.
pub open spec fn spec_kept<T>(targets: Seq<T>, sent: Seq<bool>) -> Seq<T>
    decreases targets.len(),
{
    if targets.len() == 0 {
        Seq::empty()
    } else {
        let rest = spec_kept(targets.drop_last(), sent);
        if sent[targets.len() - 1] {
            rest.push(targets.last())
        } else {
            rest
        }
    }
}

/// Which targets are kept depends only on the results for them.
proof fn lemma_kept_prefix<T>(targets: Seq<T>, a: Seq<bool>, b: Seq<bool>)
    requires
        targets.len() <= a.len(),
        targets.len() <= b.len(),
        forall|j: int| 0 <= j < targets.len() ==> a[j] == b[j],
    ensures
        spec_kept(targets, a) == spec_kept(targets, b),
    decreases targets.len(),
{
    if targets.len() > 0 {
        lemma_kept_prefix(targets.drop_last(), a, b);
    }
}

/// A queue that hands each frame to all of its readers. A reader whose
/// channel is full or closed when a frame comes is dropped.
pub struct MediaFrameQueue {
    targets: Vec<Sender<Frame>>,
    streams: Vec<Stream>,
}

impl MediaFrameQueue {
    /// The channels of the readers still fed, in the order they were added.
    pub closed spec fn spec_targets(&self) -> Seq<Sender<Frame>> {
        self.targets@
    }

    /// The streams a new reader is told of.
    pub closed spec fn spec_streams(&self) -> Seq<Stream> {
        self.streams@
    }

    /// A queue without readers or streams.
    pub fn new() -> (r: Self)
        ensures
            r.spec_targets() == Seq::<Sender<Frame>>::empty(),
            r.spec_streams() == Seq::<Stream>::empty(),
    {
        MediaFrameQueue { targets: Vec::new(), streams: Vec::new() }
    }

    /// Hands `frame` to each reader. The readers kept are those whose
    /// channel took it, in their order; the streams stay.
    pub fn push(&mut self, frame: &Frame)
        ensures
            exists|sent: Seq<bool>|
                sent.len() == old(self).spec_targets().len() && final(self).spec_targets()
                    == spec_kept(old(self).spec_targets(), sent),
            final(self).spec_streams() == old(self).spec_streams(),
    {
        let mut rest: Vec<Sender<Frame>> = Vec::new();
        std::mem::swap(&mut rest, &mut self.targets);
        let ghost all = rest@;
        assert(all == old(self).spec_targets());
        let ghost mut sent: Seq<bool> = Seq::empty();
        let mut kept: Vec<Sender<Frame>> = Vec::new();
        let mut i: usize = 0;
        assert(all.skip(0) =~= all);
        assert(all.len() == rest.len());
        while rest.len() > 0
            invariant
                i + rest@.len() == all.len(),
                all.len() <= usize::MAX,
                rest@ == all.skip(i as int),
                sent.len() == i,
                kept@ == spec_kept(all.take(i as int), sent),
                self.streams@ == old(self).spec_streams(),
            decreases rest@.len(),
        {
            let target = rest.remove(0);
            proof {
                assert(target == all[i as int]);
                assert(all.skip(i as int).drop_first() =~= all.skip(i + 1));
            }
            let ghost before = sent;
            match try_send_frame(target, frame.copied()) {
                Some(t) => {
                    kept.push(t);
                    proof {
                        sent = sent.push(true);
                    }
                },
                None => {
                    proof {
                        sent = sent.push(false);
                    }
                },
            }
            proof {
                lemma_kept_prefix(all.take(i as int), before, sent);
                let t = all.take(i + 1);
                assert(t.drop_last() =~= all.take(i as int));
                assert(t.last() == target);
                assert(kept@ == spec_kept(t, sent));
            }
            i = i + 1;
        }
        assert(all.take(i as int) =~= all);
        self.targets = kept;
    }

    /// Adds a reader fed through `target`.
    pub fn add_target(&mut self, target: Sender<Frame>)
        ensures
            final(self).spec_targets() == old(self).spec_targets().push(target),
            final(self).spec_streams() == old(self).spec_streams(),
    {
        self.targets.push(target);
    }

    /// A new reader: its channel joins the targets, and it is told of the
    /// streams known now.
    pub fn get_receiver(&mut self) -> (r: MediaFrameQueueReceiver)
        ensures
            final(self).spec_targets().len() == old(self).spec_targets().len() + 1,
            final(self).spec_targets().take(old(self).spec_targets().len() as int)
                == old(self).spec_targets(),
            spec_sender_capacity(final(self).spec_targets().last()) == RECEIVER_CAPACITY,
            final(self).spec_streams() == old(self).spec_streams(),
            r.spec_streams() == old(self).spec_streams(),
    {
        let (send, recv) = bounded_frame_channel(RECEIVER_CAPACITY);
        self.add_target(send);
        assert(self.targets@.take(self.targets@.len() - 1) =~= old(self).targets@);
        MediaFrameQueueReceiver { streams: self.get_streams(), recv }
    }

    /// The streams told to new readers are now `streams`.
    pub fn set_streams(&mut self, streams: Vec<Stream>)
        ensures
            final(self).spec_streams() == streams@,
            final(self).spec_targets() == old(self).spec_targets(),
    {
        self.streams = streams;
    }

    /// The streams told to new readers.
    pub fn get_streams(&self) -> (r: Vec<Stream>)
        ensures
            r@ == self.spec_streams(),
    {
        copy_streams(&self.streams)
    }
}

/// The targets whose send succeeded, in order: `sent[i]` tells whether
/// the frame went into the channel of `targets[i]`.
pub fn retain_sent(targets: Vec<Sender<Frame>>, sent: &Vec<bool>) -> (r: Vec<Sender<Frame>>)
    requires
        sent@.len() == targets@.len(),
    ensures
        r@ == spec_kept(targets@, sent@),
{
    let mut rest = targets;
    let ghost all = rest@;
    let _count: usize = rest.len();
    let mut kept: Vec<Sender<Frame>> = Vec::new();
    let mut i: usize = 0;
    while rest.len() > 0
        invariant
            i + rest@.len() == all.len(),
            all.len() <= usize::MAX,
            rest@ == all.skip(i as int),
            sent@.len() == all.len(),
            kept@ == spec_kept(all.take(i as int), sent@),
        decreases rest@.len(),
    {
        let target = rest.remove(0);
        let ok = sent[i];
        proof {
            assert(target == all[i as int]);
            assert(all.skip(i as int).drop_first() =~= all.skip(i + 1));
        }
        if ok {
            kept.push(target);
        }
        proof {
            let t = all.take(i + 1);
            assert(t.drop_last() =~= all.take(i as int));
            assert(t.last() == target);
            assert(kept@ == spec_kept(t, sent@));
        }
        i = i + 1;
    }
    assert(all.take(i as int) =~= all);
    kept
}

/// Another handle to each stream, in order.
pub(crate) fn copy_streams(streams: &Vec<Stream>) -> (r: Vec<Stream>)
    ensures
        r@ == streams@,
{
    let mut r: Vec<Stream> = Vec::new();
    let mut i: usize = 0;
    while i < streams.len()
        invariant
            i <= streams@.len(),
            r@ == streams@.take(i as int),
        decreases streams@.len() - i,
    {
        r.push(streams[i].copied());
        i = i + 1;
        assert(r@ =~= streams@.take(i as int));
    }
    assert(streams@.take(i as int) =~= streams@);
    r
}

/// A reader of a frame queue: the streams it was told of, and the channel
/// its frames come through.
pub struct MediaFrameQueueReceiver {
    streams: Vec<Stream>,
    recv: Receiver<Frame>,
}

impl MediaFrameQueueReceiver {
    pub closed spec fn spec_streams(&self) -> Seq<Stream> {
        self.streams@
    }

    /// The streams the reader was told of.
    pub fn streams(&self) -> (r: Vec<Stream>)
        ensures
            r@ == self.spec_streams(),
    {
        copy_streams(&self.streams)
    }

    pub closed spec fn spec_receiver(&self) -> Receiver<Frame> {
        self.recv
    }

    /// The channel the reader's frames come through.
    pub fn receiver(&self) -> (r: &Receiver<Frame>)
        ensures
            *r == self.spec_receiver(),
    {
        &self.recv
    }
}

} // verus!
