//! The site's view of the live stream sessions: viewer counts kept from
//! the ingest service's events, and bandwidth statistics gathered until
//! they are stored.

use crate::stream_info::{map_entries, spec_entries_of, StreamMeta, StreamType};
use std::collections::HashMap;
use vstd::prelude::*;

verus! {

broadcast use vstd::std_specs::hash::group_hash_axioms;

/// What the site keeps of a live stream: its number of viewers.
#[derive(Copy, Clone)]
pub struct StreamInfo {
    viewers: u32,
}

impl StreamInfo {
    pub closed spec fn spec_viewers(&self) -> u32 {
        self.viewers
    }

    /// A stream with `viewers` viewers.
    pub closed spec fn spec_with(viewers: u32) -> StreamInfo {
        StreamInfo { viewers }
    }

    pub proof fn lemma_with(viewers: u32)
        ensures
            Self::spec_with(viewers).spec_viewers() == viewers,
            forall|i: StreamInfo| #[trigger] i.spec_viewers() == viewers ==> i == Self::spec_with(
                viewers,
            ),
    {
    }

    /// The number of viewers.
    pub fn viewers(&self) -> (r: u32)
        ensures
            r == self.spec_viewers(),
    {
        self.viewers
    }
}

impl Default for StreamInfo {
    fn default() -> (r: Self)
        ensures
            r.spec_viewers() == 0,
    {
        StreamInfo { viewers: 0 }
    }
}

/// Bytes of a stream gathered since the statistics were last stored, and
/// when gathering began (seconds since the Unix epoch).
#[derive(Copy, Clone)]
pub struct AggregatedStats {
    pub time: i64,
    pub ingest_bytes: i32,
    pub other_bytes: i32,
}

impl AggregatedStats {
    /// Nothing gathered yet, from `time` on.
    pub fn new(time: i64) -> (r: Self)
        ensures
            r == (AggregatedStats { time, ingest_bytes: 0, other_bytes: 0 }),
    {
        AggregatedStats { time, ingest_bytes: 0, other_bytes: 0 }
    }
}

/// What the site must do for an event, beyond its own bookkeeping.
pub enum SessionAction {
    /// Store the metadata of a session.
    AttachMetadata { stream_session_id: i32, meta: StreamMeta },
    /// Record the end of a session at `end` (seconds since the Unix epoch),
    /// then drop the stream with `stream_stopped`.
    StopSession { stream_session_id: i32, end: i64 },
}

/// The statistics of stream `id` after `bytes` more (truncated to `i32`)
/// were seen, ingested or sent to viewers; gathering of a stream not seen
/// yet begins at `now`.
pub open spec fn spec_add_stats(
    m: Map<i32, AggregatedStats>,
    id: i32,
    bytes: u32,
    is_ingest: bool,
    now: i64,
) -> Map<i32, AggregatedStats> {
    let e = if m.contains_key(id) {
        m[id]
    } else {
        AggregatedStats { time: now, ingest_bytes: 0, other_bytes: 0 }
    };
    if is_ingest {
        m.insert(id, AggregatedStats { ingest_bytes: (e.ingest_bytes + (bytes as i32)) as i32, ..e })
    } else {
        m.insert(id, AggregatedStats { other_bytes: (e.other_bytes + (bytes as i32)) as i32, ..e })
    }
}

/// The statistics a stats event adds to do not overflow.
pub open spec fn spec_stats_fit(m: Map<i32, AggregatedStats>, id: i32, bytes: u32, is_ingest: bool) -> bool {
    let (i, o) = if m.contains_key(id) {
        (m[id].ingest_bytes as int, m[id].other_bytes as int)
    } else {
        (0int, 0int)
    };
    if is_ingest {
        i32::MIN <= i + (bytes as i32) <= i32::MAX
    } else {
        i32::MIN <= o + (bytes as i32) <= i32::MAX
    }
}

/// The viewer counts after a viewer joins (`delta` 1) or leaves (`delta`
/// -1) stream `id`, when it is live.
pub open spec fn spec_add_viewer(m: Map<i32, StreamInfo>, id: i32, delta: int) -> Map<
    i32,
    StreamInfo,
> {
    if m.contains_key(id) {
        m.insert(id, StreamInfo::spec_with((m[id].spec_viewers() + delta) as u32))
    } else {
        m
    }
}

/// The site's bookkeeping of live streams and their statistics.
pub struct StreamSessionState {
    streams: HashMap<i32, StreamInfo>,
    aggregated_stats: HashMap<i32, AggregatedStats>,
}

impl StreamSessionState {
    pub closed spec fn spec_streams(&self) -> Map<i32, StreamInfo> {
        self.streams@
    }

    pub closed spec fn spec_stats(&self) -> Map<i32, AggregatedStats> {
        self.aggregated_stats@
    }

    pub fn new() -> (r: Self)
        ensures
            r.spec_streams() == Map::<i32, StreamInfo>::empty(),
            r.spec_stats() == Map::<i32, AggregatedStats>::empty(),
    {
        StreamSessionState { streams: HashMap::new(), aggregated_stats: HashMap::new() }
    }

    /// Applies an event of the ingest service, `now` being the current
    /// time (seconds since the Unix epoch):
    /// - an existing stream is recorded with its viewers, a started one
    ///   with none, and either one's metadata is to be stored;
    /// - a viewer joining or leaving a live stream changes its count;
    /// - a stopped stream's session is to be closed at `now`;
    /// - statistics are added to the stream's, gathered from `now` on for
    ///   a stream not seen yet.
    /// A count past `u32::MAX` or below zero, or statistics past the range
    /// of `i32`, overflow; `requires` leaves them out.
    pub fn handle_msg(&mut self, msg: StreamType, now: i64) -> (r: Option<SessionAction>)
        requires
            msg matches StreamType::ViewerJoin { stream_session_id: id } ==> (old(
                self,
            ).spec_streams().contains_key(id) ==> old(self).spec_streams()[id].spec_viewers()
                < u32::MAX),
            msg matches StreamType::ViewerLeave { stream_session_id: id } ==> (old(
                self,
            ).spec_streams().contains_key(id) ==> old(self).spec_streams()[id].spec_viewers()
                > 0),
            msg matches StreamType::StreamStats {
                stream_session_id: id,
                bytes_since_last_stats: b,
                is_ingest: i,
            } ==> spec_stats_fit(old(self).spec_stats(), id, b, i),
        ensures
            match msg {
                StreamType::StreamExisting { stream_session_id: id, viewers, meta } => {
                    &&& final(self).spec_streams() == old(self).spec_streams().insert(
                        id,
                        StreamInfo::spec_with(viewers),
                    )
                    &&& final(self).spec_stats() == old(self).spec_stats()
                    &&& match meta {
                        Some(m) => r matches Some(
                            SessionAction::AttachMetadata { stream_session_id: a, meta: am },
                        ) && a == id && am == m,
                        None => r is None,
                    }
                },
                StreamType::StreamStarted { stream_session_id: id, meta } => {
                    &&& final(self).spec_streams() == old(self).spec_streams().insert(
                        id,
                        StreamInfo::spec_with(0),
                    )
                    &&& final(self).spec_stats() == old(self).spec_stats()
                    &&& match meta {
                        Some(m) => r matches Some(
                            SessionAction::AttachMetadata { stream_session_id: a, meta: am },
                        ) && a == id && am == m,
                        None => r is None,
                    }
                },
                StreamType::ViewerJoin { stream_session_id: id } => {
                    &&& final(self).spec_streams() == spec_add_viewer(
                        old(self).spec_streams(),
                        id,
                        1,
                    )
                    &&& final(self).spec_stats() == old(self).spec_stats()
                    &&& r is None
                },
                StreamType::ViewerLeave { stream_session_id: id } => {
                    &&& final(self).spec_streams() == spec_add_viewer(
                        old(self).spec_streams(),
                        id,
                        -1,
                    )
                    &&& final(self).spec_stats() == old(self).spec_stats()
                    &&& r is None
                },
                StreamType::StreamStopped { stream_session_id: id } => {
                    &&& final(self).spec_streams() == old(self).spec_streams()
                    &&& final(self).spec_stats() == old(self).spec_stats()
                    &&& r matches Some(SessionAction::StopSession { stream_session_id: a, end })
                        && a == id && end == now
                },
                StreamType::StreamStats {
                    stream_session_id: id,
                    bytes_since_last_stats: b,
                    is_ingest: i,
                } => {
                    &&& final(self).spec_streams() == old(self).spec_streams()
                    &&& final(self).spec_stats() == spec_add_stats(
                        old(self).spec_stats(),
                        id,
                        b,
                        i,
                        now,
                    )
                    &&& r is None
                },
            },
    {
        match msg {
            StreamType::StreamExisting { stream_session_id, viewers, meta } => {
                self.streams.insert(stream_session_id, StreamInfo { viewers });
                match meta {
                    Some(m) => Some(SessionAction::AttachMetadata { stream_session_id, meta: m }),
                    None => None,
                }
            },
            StreamType::StreamStarted { stream_session_id, meta } => {
                self.streams.insert(stream_session_id, StreamInfo { viewers: 0 });
                match meta {
                    Some(m) => Some(SessionAction::AttachMetadata { stream_session_id, meta: m }),
                    None => None,
                }
            },
            StreamType::ViewerJoin { stream_session_id } => {
                match self.streams.get(&stream_session_id) {
                    Some(info) => {
                        let viewers = info.viewers + 1;
                        self.streams.insert(stream_session_id, StreamInfo { viewers });
                    },
                    None => {},
                }
                None
            },
            StreamType::ViewerLeave { stream_session_id } => {
                match self.streams.get(&stream_session_id) {
                    Some(info) => {
                        let viewers = info.viewers - 1;
                        self.streams.insert(stream_session_id, StreamInfo { viewers });
                    },
                    None => {},
                }
                None
            },
            StreamType::StreamStopped { stream_session_id } => {
                Some(SessionAction::StopSession { stream_session_id, end: now })
            },
            StreamType::StreamStats { stream_session_id, bytes_since_last_stats, is_ingest } => {
                let entry = match self.aggregated_stats.get(&stream_session_id) {
                    Some(e) => *e,
                    None => AggregatedStats::new(now),
                };
                let added = bytes_since_last_stats as i32;
                let updated = if is_ingest {
                    AggregatedStats { ingest_bytes: entry.ingest_bytes + added, ..entry }
                } else {
                    AggregatedStats { other_bytes: entry.other_bytes + added, ..entry }
                };
                self.aggregated_stats.insert(stream_session_id, updated);
                None
            },
        }
    }

    /// Whether `handle_msg` can take `msg` without a count or a statistic
    /// overflowing.
    pub fn can_handle(&self, msg: &StreamType) -> (r: bool)
        ensures
            r == ({
                &&& *msg matches StreamType::ViewerJoin { stream_session_id: id } ==> (
                self.spec_streams().contains_key(id) ==> self.spec_streams()[id].spec_viewers()
                    < u32::MAX)
                &&& *msg matches StreamType::ViewerLeave { stream_session_id: id } ==> (
                self.spec_streams().contains_key(id) ==> self.spec_streams()[id].spec_viewers()
                    > 0)
                &&& *msg matches StreamType::StreamStats {
                    stream_session_id: id,
                    bytes_since_last_stats: b,
                    is_ingest: i,
                } ==> spec_stats_fit(self.spec_stats(), id, b, i)
            }),
    {
        match msg {
            StreamType::ViewerJoin { stream_session_id } => match self.streams.get(
                stream_session_id,
            ) {
                Some(info) => info.viewers < u32::MAX,
                None => true,
            },
            StreamType::ViewerLeave { stream_session_id } => match self.streams.get(
                stream_session_id,
            ) {
                Some(info) => info.viewers > 0,
                None => true,
            },
            StreamType::StreamStats { stream_session_id, bytes_since_last_stats, is_ingest } => {
                let (i, o) = match self.aggregated_stats.get(stream_session_id) {
                    Some(e) => (e.ingest_bytes as i64, e.other_bytes as i64),
                    None => (0i64, 0i64),
                };
                let added = (*bytes_since_last_stats as i32) as i64;
                let v = if *is_ingest {
                    i + added
                } else {
                    o + added
                };
                i32::MIN as i64 <= v && v <= i32::MAX as i64
            },
            _ => true,
        }
    }

    /// Drops a stream whose session was closed.
    pub fn stream_stopped(&mut self, stream_session_id: i32)
        ensures
            final(self).spec_streams() == old(self).spec_streams().remove(stream_session_id),
            final(self).spec_stats() == old(self).spec_stats(),
    {
        self.streams.remove(&stream_session_id);
    }

    /// Takes the statistics gathered so far, each stream's once, and starts
    /// gathering anew.
    pub fn take_stats(&mut self) -> (r: Vec<(i32, AggregatedStats)>)
        ensures
            spec_entries_of(r@, old(self).spec_stats()),
            final(self).spec_stats() == Map::<i32, AggregatedStats>::empty(),
            final(self).spec_streams() == old(self).spec_streams(),
    {
        let r = map_entries(&self.aggregated_stats);
        self.aggregated_stats.clear();
        r
    }
}

/// A viewer who joins and then leaves a stream leaves the counts as they
/// were.
pub proof fn lemma_session_join_then_leave(m: Map<i32, StreamInfo>, id: i32)
    requires
        m.contains_key(id) ==> m[id].spec_viewers() < u32::MAX,
    ensures
        spec_add_viewer(spec_add_viewer(m, id, 1), id, -1) == m,
{
    if m.contains_key(id) {
        StreamInfo::lemma_with((m[id].spec_viewers() + 1) as u32);
        StreamInfo::lemma_with(m[id].spec_viewers());
        assert(spec_add_viewer(spec_add_viewer(m, id, 1), id, -1) =~= m);
    }
}

/// Statistics reported in two parts add up to the sum of the parts, as
/// long as it fits.
pub proof fn lemma_stats_add_up(
    m: Map<i32, AggregatedStats>,
    id: i32,
    a: u32,
    b: u32,
    is_ingest: bool,
    now: i64,
    later: i64,
)
    requires
        a <= i32::MAX,
        b <= i32::MAX,
        spec_stats_fit(m, id, a, is_ingest),
        spec_stats_fit(spec_add_stats(m, id, a, is_ingest, now), id, b, is_ingest),
    ensures
        ({
            let m2 = spec_add_stats(spec_add_stats(m, id, a, is_ingest, now), id, b, is_ingest, later);
            let e0 = if m.contains_key(id) {
                m[id]
            } else {
                AggregatedStats { time: now, ingest_bytes: 0, other_bytes: 0 }
            };
            &&& m2.contains_key(id)
            &&& m2[id].time == e0.time
            &&& is_ingest ==> m2[id].ingest_bytes == e0.ingest_bytes + a + b
            &&& !is_ingest ==> m2[id].other_bytes == e0.other_bytes + a + b
        }),
{
}

} // verus!
