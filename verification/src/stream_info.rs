//! Stream bookkeeping: the events the ingest service announces about its
//! streams, its repository of live streams, and the per-stream reporting
//! schedules of its filters.

use std::collections::HashMap;
use vstd::prelude::*;
use vstd::std_specs::iter::IteratorSpec;

verus! {

broadcast use vstd::std_specs::hash::group_hash_axioms;

/// Metadata of a stream, as reported by its encoder.
#[derive(Clone)]
pub struct StreamMeta {
    pub video_encoder: Option<String>,
    pub video_bitrate_kbps: Option<u32>,
    pub parameter_sets: Option<Vec<u8>>,
}

/// An event about the streams of the ingest service.
#[derive(Clone)]
pub enum StreamType {
    /// A stream that was live when the listener subscribed.
    StreamExisting { stream_session_id: i32, viewers: u32, meta: Option<StreamMeta> },
    StreamStarted { stream_session_id: i32, meta: Option<StreamMeta> },
    StreamStopped { stream_session_id: i32 },
    ViewerJoin { stream_session_id: i32 },
    ViewerLeave { stream_session_id: i32 },
    /// Bytes of a stream sent or received since the previous report.
    StreamStats { stream_session_id: i32, bytes_since_last_stats: u32, is_ingest: bool },
}

/// The entries of a map in some order, each key once.
pub open spec fn spec_entries_of<V>(r: Seq<(i32, V)>, m: Map<i32, V>) -> bool {
    &&& r.len() == m.dom().len()
    &&& forall|i: int| 0 <= i < r.len() ==> #[trigger] m.contains_key(r[i].0) && m[r[i].0] == r[i].1
    &&& forall|k: i32| #[trigger] m.contains_key(k) ==> exists|i: int| 0 <= i < r.len() && r[i].0 == k
    &&& forall|i: int, j: int| 0 <= i < j < r.len() ==> r[i].0 != r[j].0
}

/// The entries of `m`, in the order the map is walked.
pub fn map_entries<V: Copy>(m: &HashMap<i32, V>) -> (r: Vec<(i32, V)>)
    ensures
        spec_entries_of(r@, m@),
{
    let mut r: Vec<(i32, V)> = Vec::new();
    let ghost pairs = m.iter().remaining();
    for kv in it: m.iter()
        invariant
            pairs == it.seq(),
            pairs.len() == m@.dom().len(),
            pairs.no_duplicates(),
            forall|i: int|
                0 <= i < pairs.len() ==> #[trigger] m@.contains_key(*pairs[i].0) && m@[*pairs[i].0]
                    == *pairs[i].1,
            forall|k: i32| #[trigger] m@.contains_key(k) ==> pairs.contains((&k, &m@[k])),
            r@.len() == it.index(),
            forall|i: int| 0 <= i < it.index() ==> #[trigger] r@[i] == (*pairs[i].0, *pairs[i].1),
    {
        let (k, v) = kv;
        r.push((*k, *v));
    }
    proof {
        assert forall|i: int| 0 <= i < r@.len() implies #[trigger] m@.contains_key(r@[i].0)
            && m@[r@[i].0] == r@[i].1 by {
            assert(r@[i] == (*pairs[i].0, *pairs[i].1));
        }
        assert forall|k: i32| #[trigger] m@.contains_key(k) implies exists|i: int|
            0 <= i < r@.len() && r@[i].0 == k by {
            assert(pairs.contains((&k, &m@[k])));
            let i = choose|i: int| 0 <= i < pairs.len() && pairs[i] == (&k, &m@[k]);
            assert(r@[i] == (*pairs[i].0, *pairs[i].1));
        }
        assert forall|i: int, j: int| 0 <= i < j < r@.len() implies r@[i].0 != r@[j].0 by {
            assert(r@[i] == (*pairs[i].0, *pairs[i].1));
            assert(r@[j] == (*pairs[j].0, *pairs[j].1));
            assert(m@[*pairs[i].0] == *pairs[i].1);
            assert(m@[*pairs[j].0] == *pairs[j].1);
        }
    }
    r
}

/// What the repository keeps of a live stream: its number of viewers.
#[derive(Copy, Clone)]
pub struct StreamMetadata {
    pub viewers: u32,
}

impl StreamMetadata {
    /// A stream nobody watches yet.
    pub fn new() -> (r: Self)
        ensures
            r.viewers == 0,
    {
        StreamMetadata { viewers: 0 }
    }
}

/// The live streams of the ingest service by session ID, and the session
/// ID last started under each stream name. Each change returns the event
/// to announce.
pub struct StreamRepository {
    stream_mapping: Vec<(String, i32)>,
    streams: HashMap<i32, StreamMetadata>,
}

/// Each name occurs once.
pub open spec fn spec_unique_names(s: Seq<(String, i32)>) -> bool {
    forall|i: int, j: int| 0 <= i < j < s.len() ==> s[i].0@ != s[j].0@
}

/// The session ID of each name of a name list.
pub open spec fn spec_name_map(s: Seq<(String, i32)>) -> Map<Seq<char>, i32> {
    Map::new(
        |k: Seq<char>| exists|i: int| 0 <= i < s.len() && s[i].0@ == k,
        |k: Seq<char>| s[choose|i: int| 0 <= i < s.len() && s[i].0@ == k].1,
    )
}

/// Where a name stands in a list of unique names.
proof fn lemma_name_at(s: Seq<(String, i32)>, i: int)
    requires
        spec_unique_names(s),
        0 <= i < s.len(),
    ensures
        spec_name_map(s).contains_key(s[i].0@),
        spec_name_map(s)[s[i].0@] == s[i].1,
{
    let k = s[i].0@;
    assert(exists|j: int| 0 <= j < s.len() && s[j].0@ == k);
    let j = choose|j: int| 0 <= j < s.len() && s[j].0@ == k;
    if j != i {
        if j < i {
            assert(s[j].0@ != s[i].0@);
        } else {
            assert(s[i].0@ != s[j].0@);
        }
    }
}

/// The streams after a viewer joins stream `id`: one more viewer, when the
/// stream is live.
pub open spec fn spec_viewer_join(m: Map<i32, StreamMetadata>, id: i32) -> Map<i32, StreamMetadata> {
    if m.contains_key(id) {
        m.insert(id, StreamMetadata { viewers: (m[id].viewers + 1) as u32 })
    } else {
        m
    }
}

/// The streams after a viewer leaves stream `id`: one viewer less, when
/// the stream is live.
pub open spec fn spec_viewer_leave(m: Map<i32, StreamMetadata>, id: i32) -> Map<i32, StreamMetadata> {
    if m.contains_key(id) {
        m.insert(id, StreamMetadata { viewers: (m[id].viewers - 1) as u32 })
    } else {
        m
    }
}

/// A viewer who joins and then leaves a stream leaves the counts as they
/// were.
pub proof fn lemma_join_then_leave(m: Map<i32, StreamMetadata>, id: i32)
    requires
        m.contains_key(id) ==> m[id].viewers < u32::MAX,
    ensures
        spec_viewer_leave(spec_viewer_join(m, id), id) == m,
{
    if m.contains_key(id) {
        assert(spec_viewer_leave(spec_viewer_join(m, id), id) =~= m);
    }
}

/// Stopping a stream that was just started leaves the other streams as
/// they were; the stream is gone.
pub proof fn lemma_start_then_stop(m: Map<i32, StreamMetadata>, id: i32)
    ensures
        m.insert(id, StreamMetadata { viewers: 0 }).remove(id) == m.remove(id),
        !m.contains_key(id) ==> m.insert(id, StreamMetadata { viewers: 0 }).remove(id) == m,
{
    assert(m.insert(id, StreamMetadata { viewers: 0 }).remove(id) =~= m.remove(id));
    if !m.contains_key(id) {
        assert(m.remove(id) =~= m);
    }
}

impl StreamRepository {
    /// The viewers of each live stream.
    pub closed spec fn spec_streams(&self) -> Map<i32, StreamMetadata> {
        self.streams@
    }

    /// The session ID of each stream name started.
    pub closed spec fn spec_mapping(&self) -> Map<Seq<char>, i32> {
        spec_name_map(self.stream_mapping@)
    }

    /// The names are kept once each.
    pub closed spec fn well_formed(&self) -> bool {
        spec_unique_names(self.stream_mapping@)
    }

    pub fn new() -> (r: Self)
        ensures
            r.well_formed(),
            r.spec_streams() == Map::<i32, StreamMetadata>::empty(),
            r.spec_mapping() == Map::<Seq<char>, i32>::empty(),
    {
        let r = StreamRepository { stream_mapping: Vec::new(), streams: HashMap::new() };
        assert(r.spec_mapping() =~= Map::<Seq<char>, i32>::empty());
        r
    }

    /// Records a started stream with no viewers under its session ID, maps
    /// its name to the session ID, and announces the start.
    pub fn start_stream(&mut self, stream_session_id: i32, stream: String) -> (r: StreamType)
        requires
            old(self).well_formed(),
        ensures
            final(self).well_formed(),
            final(self).spec_streams() == old(self).spec_streams().insert(
                stream_session_id,
                StreamMetadata { viewers: 0 },
            ),
            final(self).spec_mapping() == old(self).spec_mapping().insert(
                stream@,
                stream_session_id,
            ),
            r matches StreamType::StreamStarted { stream_session_id: id, meta: None }
                && id == stream_session_id,
    {
        self.streams.insert(stream_session_id, StreamMetadata::new());
        let ghost old_list = self.stream_mapping@;
        let mut i: usize = 0;
        let mut found = false;
        while i < self.stream_mapping.len()
            invariant_except_break
                !found,
            invariant
                i <= self.stream_mapping@.len(),
                self.stream_mapping@ == old_list,
                spec_unique_names(old_list),
                forall|j: int| 0 <= j < i ==> #[trigger] old_list[j].0@ != stream@,
            ensures
                found ==> i < old_list.len() && old_list[i as int].0@ == stream@,
                !found ==> forall|j: int| 0 <= j < old_list.len() ==> #[trigger] old_list[j].0@ != stream@,
            decreases self.stream_mapping@.len() - i,
        {
            if self.stream_mapping[i].0 == stream {
                found = true;
                break;
            }
            i = i + 1;
        }
        if found {
            self.stream_mapping.set(i, (stream, stream_session_id));
            proof {
                let s = self.stream_mapping@;
                assert forall|a: int, b: int| 0 <= a < b < s.len() implies s[a].0@ != s[b].0@ by {
                    if a != i && b != i {
                        assert(old_list[a].0@ != old_list[b].0@);
                    } else if a == i {
                        assert(old_list[a].0@ != old_list[b].0@);
                    } else {
                        assert(old_list[a].0@ != old_list[b].0@);
                    }
                }
                lemma_name_at(s, i as int);
                let m = spec_name_map(s);
                let om = spec_name_map(old_list);
                assert forall|k: Seq<char>| #[trigger] m.contains_key(k) == om.insert(
                    stream@,
                    stream_session_id,
                ).contains_key(k) by {
                    if k != stream@ {
                        if m.contains_key(k) {
                            let j = choose|j: int| 0 <= j < s.len() && s[j].0@ == k;
                            assert(old_list[j].0@ == k);
                        }
                        if om.contains_key(k) {
                            let j = choose|j: int| 0 <= j < old_list.len() && old_list[j].0@ == k;
                            assert(j != i);
                            assert(s[j].0@ == k);
                        }
                    }
                }
                assert forall|k: Seq<char>| #[trigger] m.contains_key(k) implies m[k] == om.insert(
                    stream@,
                    stream_session_id,
                )[k] by {
                    if k != stream@ {
                        let j = choose|j: int| 0 <= j < s.len() && s[j].0@ == k;
                        assert(j != i);
                        lemma_name_at(s, j);
                        lemma_name_at(old_list, j);
                    }
                }
                assert(m =~= om.insert(stream@, stream_session_id));
            }
        } else {
            self.stream_mapping.push((stream, stream_session_id));
            proof {
                let s = self.stream_mapping@;
                let n = old_list.len() as int;
                assert forall|a: int, b: int| 0 <= a < b < s.len() implies s[a].0@ != s[b].0@ by {
                    if b < n {
                        assert(old_list[a].0@ != old_list[b].0@);
                    } else {
                        assert(old_list[a].0@ != stream@);
                    }
                }
                lemma_name_at(s, n);
                let m = spec_name_map(s);
                let om = spec_name_map(old_list);
                assert forall|k: Seq<char>| #[trigger] m.contains_key(k) == om.insert(
                    stream@,
                    stream_session_id,
                ).contains_key(k) by {
                    if k != stream@ {
                        if m.contains_key(k) {
                            let j = choose|j: int| 0 <= j < s.len() && s[j].0@ == k;
                            assert(j != n);
                            assert(old_list[j].0@ == k);
                        }
                        if om.contains_key(k) {
                            let j = choose|j: int| 0 <= j < old_list.len() && old_list[j].0@ == k;
                            assert(s[j].0@ == k);
                        }
                    }
                }
                assert forall|k: Seq<char>| #[trigger] m.contains_key(k) implies m[k] == om.insert(
                    stream@,
                    stream_session_id,
                )[k] by {
                    if k != stream@ {
                        let j = choose|j: int| 0 <= j < s.len() && s[j].0@ == k;
                        assert(j != n);
                        lemma_name_at(s, j);
                        lemma_name_at(old_list, j);
                    }
                }
                assert(m =~= om.insert(stream@, stream_session_id));
            }
        }
        StreamType::StreamStarted { stream_session_id, meta: None }
    }

    /// Forgets a stream (its name keeps its mapping) and announces the stop.
    pub fn stop_stream(&mut self, stream_session_id: i32) -> (r: StreamType)
        ensures
            final(self).spec_streams() == old(self).spec_streams().remove(stream_session_id),
            final(self).spec_mapping() == old(self).spec_mapping(),
            final(self).well_formed() == old(self).well_formed(),
            r matches StreamType::StreamStopped { stream_session_id: id } && id
                == stream_session_id,
    {
        self.streams.remove(&stream_session_id);
        StreamType::StreamStopped { stream_session_id }
    }

    /// Counts one more viewer of a live stream and announces the join. A
    /// count at `u32::MAX` overflows; `requires` leaves that out.
    pub fn viewer_join(&mut self, stream_session_id: i32) -> (r: StreamType)
        requires
            old(self).spec_streams().contains_key(stream_session_id) ==> old(
                self,
            ).spec_streams()[stream_session_id].viewers < u32::MAX,
        ensures
            final(self).spec_streams() == spec_viewer_join(old(self).spec_streams(), stream_session_id),
            final(self).spec_mapping() == old(self).spec_mapping(),
            final(self).well_formed() == old(self).well_formed(),
            r matches StreamType::ViewerJoin { stream_session_id: id } && id == stream_session_id,
    {
        match self.streams.get(&stream_session_id) {
            Some(meta) => {
                let viewers = meta.viewers + 1;
                self.streams.insert(stream_session_id, StreamMetadata { viewers });
            },
            None => {},
        }
        StreamType::ViewerJoin { stream_session_id }
    }

    /// Counts one viewer less of a live stream and announces the leave. A
    /// count at zero underflows; `requires` leaves that out.
    pub fn viewer_disconnect(&mut self, stream_session_id: i32) -> (r: StreamType)
        requires
            old(self).spec_streams().contains_key(stream_session_id) ==> old(
                self,
            ).spec_streams()[stream_session_id].viewers > 0,
        ensures
            final(self).spec_streams() == spec_viewer_leave(old(self).spec_streams(), stream_session_id),
            final(self).spec_mapping() == old(self).spec_mapping(),
            final(self).well_formed() == old(self).well_formed(),
            r matches StreamType::ViewerLeave { stream_session_id: id } && id == stream_session_id,
    {
        match self.streams.get(&stream_session_id) {
            Some(meta) => {
                let viewers = meta.viewers - 1;
                self.streams.insert(stream_session_id, StreamMetadata { viewers });
            },
            None => {},
        }
        StreamType::ViewerLeave { stream_session_id }
    }

    /// The session ID of a stream name.
    pub fn lookup(&self, stream: &String) -> (r: Option<i32>)
        requires
            self.well_formed(),
        ensures
            r == (if self.spec_mapping().contains_key(stream@) {
                Some(self.spec_mapping()[stream@])
            } else {
                None::<i32>
            }),
    {
        let mut i: usize = 0;
        while i < self.stream_mapping.len()
            invariant
                i <= self.stream_mapping@.len(),
                self.well_formed(),
                forall|j: int| 0 <= j < i ==> #[trigger] self.stream_mapping@[j].0@ != stream@,
            decreases self.stream_mapping@.len() - i,
        {
            if self.stream_mapping[i].0 == *stream {
                proof {
                    lemma_name_at(self.stream_mapping@, i as int);
                }
                return Some(self.stream_mapping[i].1);
            }
            i = i + 1;
        }
        proof {
            if self.spec_mapping().contains_key(stream@) {
                let j = choose|j: int|
                    0 <= j < self.stream_mapping@.len() && self.stream_mapping@[j].0@ == stream@;
                assert(self.stream_mapping@[j].0@ != stream@);
            }
        }
        None
    }

    /// The stream a viewer asks for by name: when the name maps to a live
    /// stream, its session ID, with the viewer counted and the join to
    /// announce; else nothing changes.
    pub fn attach(&mut self, stream: &String) -> (r: Option<(i32, StreamType)>)
        requires
            old(self).well_formed(),
            old(self).spec_mapping().contains_key(stream@) && old(self).spec_streams().contains_key(
                old(self).spec_mapping()[stream@],
            ) ==> old(self).spec_streams()[old(self).spec_mapping()[stream@]].viewers < u32::MAX,
        ensures
            final(self).well_formed(),
            final(self).spec_mapping() == old(self).spec_mapping(),
            match r {
                Some((id, event)) => {
                    &&& old(self).spec_mapping().contains_key(stream@)
                    &&& id == old(self).spec_mapping()[stream@]
                    &&& old(self).spec_streams().contains_key(id)
                    &&& final(self).spec_streams() == old(self).spec_streams().insert(
                        id,
                        StreamMetadata { viewers: (old(self).spec_streams()[id].viewers + 1) as u32 },
                    )
                    &&& event matches StreamType::ViewerJoin { stream_session_id: e } && e == id
                },
                None => {
                    &&& !(old(self).spec_mapping().contains_key(stream@) && old(
                        self,
                    ).spec_streams().contains_key(old(self).spec_mapping()[stream@]))
                    &&& final(self).spec_streams() == old(self).spec_streams()
                },
            },
    {
        let id = match self.lookup(stream) {
            Some(id) => id,
            None => {
                return None;
            },
        };
        if !self.streams.contains_key(&id) {
            return None;
        }
        let event = self.viewer_join(id);
        Some((id, event))
    }

    /// Whether a viewer can join stream `id` without the count overflowing.
    pub fn can_join(&self, stream_session_id: i32) -> (r: bool)
        ensures
            r == (self.spec_streams().contains_key(stream_session_id)
                ==> self.spec_streams()[stream_session_id].viewers < u32::MAX),
    {
        match self.streams.get(&stream_session_id) {
            Some(meta) => meta.viewers < u32::MAX,
            None => true,
        }
    }

    /// Whether a viewer can leave stream `id` without the count going below
    /// zero.
    pub fn can_leave(&self, stream_session_id: i32) -> (r: bool)
        ensures
            r == (self.spec_streams().contains_key(stream_session_id)
                ==> self.spec_streams()[stream_session_id].viewers > 0),
    {
        match self.streams.get(&stream_session_id) {
            Some(meta) => meta.viewers > 0,
            None => true,
        }
    }

    /// The streams live now, each announced as existing with its viewers.
    pub fn existing_events(&self) -> (r: Vec<StreamType>)
        ensures
            r@.len() == self.spec_streams().dom().len(),
            forall|i: int|
                0 <= i < r@.len() ==> (#[trigger] r@[i] matches StreamType::StreamExisting {
                    stream_session_id: id,
                    viewers: v,
                    meta: None,
                } && self.spec_streams().contains_key(id) && self.spec_streams()[id].viewers == v),
            forall|id: i32|
                #[trigger] self.spec_streams().contains_key(id) ==> exists|i: int|
                    0 <= i < r@.len() && (#[trigger] r@[i] matches StreamType::StreamExisting {
                        stream_session_id: e,
                        ..
                    } && e == id),
    {
        let entries = map_entries(&self.streams);
        let mut r: Vec<StreamType> = Vec::new();
        let mut i: usize = 0;
        while i < entries.len()
            invariant
                i <= entries@.len(),
                spec_entries_of(entries@, self.streams@),
                r@.len() == i,
                forall|j: int|
                    0 <= j < i ==> (#[trigger] r@[j] matches StreamType::StreamExisting {
                        stream_session_id: id,
                        viewers: v,
                        meta: None,
                    } && id == entries@[j].0 && v == entries@[j].1.viewers),
            decreases entries@.len() - i,
        {
            let (id, meta) = entries[i];
            r.push(StreamType::StreamExisting { stream_session_id: id, viewers: meta.viewers, meta: None });
            i = i + 1;
        }
        proof {
            assert forall|i: int| 0 <= i < r@.len() implies (#[trigger] r@[i] matches StreamType::StreamExisting {
                stream_session_id: id,
                viewers: v,
                meta: None,
            } && self.spec_streams().contains_key(id) && self.spec_streams()[id].viewers == v) by {
                assert(self.streams@.contains_key(entries@[i].0));
            }
            assert forall|id: i32| #[trigger] self.spec_streams().contains_key(id) implies exists|i: int|
                0 <= i < r@.len() && (#[trigger] r@[i] matches StreamType::StreamExisting {
                    stream_session_id: e,
                    ..
                } && e == id) by {
                assert(self.streams@.contains_key(id));
                let i = choose|i: int| 0 <= i < entries@.len() && entries@[i].0 == id;
                assert(r@[i] matches StreamType::StreamExisting { stream_session_id: e, .. } && e == id);
            }
        }
        r
    }
}

/// The time between two bandwidth reports of a stream, in nanoseconds.
pub const BANDWIDTH_REPORT_INTERVAL: u64 = 5_000_000_000;

/// The time between two snapshots of a stream, in nanoseconds.
pub const SNAPSHOT_INTERVAL: u64 = 10_000_000_000;

/// The time elapsed from `earlier` to `now`, or zero when `now` is not
/// later (as `Instant` subtraction saturates).
pub open spec fn spec_elapsed(now: u64, earlier: u64) -> int {
    if now > earlier {
        now - earlier
    } else {
        0
    }
}

/// Counts the bytes of a stream's frames and reports them every few
/// seconds. Times are nanoseconds on a monotonic clock.
pub struct BandwidthAnalyzer {
    last_report: u64,
    is_ingest: bool,
    stream_id: i32,
    bytes: u32,
}

impl BandwidthAnalyzer {
    pub closed spec fn spec_bytes(&self) -> u32 {
        self.bytes
    }

    pub closed spec fn spec_last_report(&self) -> u64 {
        self.last_report
    }

    pub closed spec fn spec_stream_id(&self) -> i32 {
        self.stream_id
    }

    pub closed spec fn spec_is_ingest(&self) -> bool {
        self.is_ingest
    }

    /// A meter for stream `stream_id` that has counted nothing, its last
    /// report at `now`.
    pub fn new(stream_id: i32, is_ingest: bool, now: u64) -> (r: Self)
        ensures
            r.spec_bytes() == 0,
            r.spec_last_report() == now,
            r.spec_stream_id() == stream_id,
            r.spec_is_ingest() == is_ingest,
    {
        BandwidthAnalyzer { last_report: now, is_ingest, stream_id, bytes: 0 }
    }

    /// Counts a frame of `frame_len` bytes (truncated to 32 bits) seen at
    /// `now`. When more than the report interval has passed since the last
    /// report, the report to send is returned and `now` becomes the last
    /// report; the count is cleared by `report_sent` once the report went
    /// out. A count past `u32::MAX` overflows; `requires` leaves that out.
    pub fn analyze(&mut self, frame_len: usize, now: u64) -> (r: Option<StreamType>)
        requires
            old(self).spec_bytes() + (frame_len as u32) <= u32::MAX,
        ensures
            final(self).spec_bytes() == old(self).spec_bytes() + (frame_len as u32),
            final(self).spec_stream_id() == old(self).spec_stream_id(),
            final(self).spec_is_ingest() == old(self).spec_is_ingest(),
            spec_elapsed(now, old(self).spec_last_report()) > BANDWIDTH_REPORT_INTERVAL ==> {
                &&& final(self).spec_last_report() == now
                &&& r matches Some(
                    StreamType::StreamStats { stream_session_id, bytes_since_last_stats, is_ingest },
                )
                &&& stream_session_id == old(self).spec_stream_id()
                &&& bytes_since_last_stats == final(self).spec_bytes()
                &&& is_ingest == old(self).spec_is_ingest()
            },
            spec_elapsed(now, old(self).spec_last_report()) <= BANDWIDTH_REPORT_INTERVAL ==> {
                &&& final(self).spec_last_report() == old(self).spec_last_report()
                &&& r is None
            },
    {
        self.bytes = self.bytes + frame_len as u32;
        let elapsed = if now > self.last_report {
            now - self.last_report
        } else {
            0
        };
        if elapsed > BANDWIDTH_REPORT_INTERVAL {
            self.last_report = now;
            Some(
                StreamType::StreamStats {
                    stream_session_id: self.stream_id,
                    bytes_since_last_stats: self.bytes,
                    is_ingest: self.is_ingest,
                },
            )
        } else {
            None
        }
    }

    /// Whether a frame of `frame_len` bytes can be counted without the
    /// count overflowing.
    pub fn can_count(&self, frame_len: usize) -> (r: bool)
        ensures
            r == (self.spec_bytes() + (frame_len as u32) <= u32::MAX),
    {
        let len = frame_len as u32;
        len <= u32::MAX - self.bytes
    }

    /// The report went out: the count starts again from zero.
    pub fn report_sent(&mut self)
        ensures
            final(self).spec_bytes() == 0,
            final(self).spec_last_report() == old(self).spec_last_report(),
            final(self).spec_stream_id() == old(self).spec_stream_id(),
            final(self).spec_is_ingest() == old(self).spec_is_ingest(),
    {
        self.bytes = 0;
    }
}

/// Decides when to keep a video keyframe as a stream's snapshot: the first
/// one, then one whenever more than the snapshot interval has passed.
pub struct SnapshotSchedule {
    last_report: Option<u64>,
}

impl SnapshotSchedule {
    pub closed spec fn spec_last_report(&self) -> Option<u64> {
        self.last_report
    }

    pub fn new() -> (r: Self)
        ensures
            r.spec_last_report() is None,
    {
        SnapshotSchedule { last_report: None }
    }

    /// Whether the frame seen at `now` becomes the snapshot: a video
    /// keyframe when no snapshot was taken yet, or when more than the
    /// snapshot interval has passed since the last one. Taking it records
    /// `now`.
    pub fn should_take(&mut self, is_keyframe: bool, is_video: bool, now: u64) -> (r: bool)
        ensures
            r == (is_keyframe && is_video && match old(self).spec_last_report() {
                Some(prev) => spec_elapsed(now, prev) > SNAPSHOT_INTERVAL,
                None => true,
            }),
            r ==> final(self).spec_last_report() == Some(now),
            !r ==> final(self).spec_last_report() == old(self).spec_last_report(),
    {
        if is_keyframe && is_video {
            match self.last_report {
                Some(prev) => {
                    let elapsed = if now > prev {
                        now - prev
                    } else {
                        0
                    };
                    if elapsed > SNAPSHOT_INTERVAL {
                        self.last_report = Some(now);
                        true
                    } else {
                        false
                    }
                },
                None => {
                    self.last_report = Some(now);
                    true
                },
            }
        } else {
            false
        }
    }
}

/// Whether an RTMP publisher may stream: with a stream key configured
/// (`STREAM_KEY`), only when it supplies that key; without one, always.
pub fn authenticate_rtmp_stream(configured_key: Option<&String>, supplied_stream_key: &str) -> (r:
    bool)
    ensures
        r == match configured_key {
            Some(k) => k@ == supplied_stream_key@,
            None => true,
        },
{
    match configured_key {
        Some(k) => *k == supplied_stream_key.to_owned(),
        None => true,
    }
}

} // verus!
