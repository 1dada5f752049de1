//! The profiler's bookkeeping: which spans are in flight, the identifiers it
//! gives them, and the buffer that finished spans go to.

use vstd::prelude::*;
use std::collections::HashMap;
use crate::profiling::{span_category, CompletedSpan, RingBuffer, SpanCategory, SpanId};

verus! {

/// A span that has been opened and not yet closed. `start_time` is in
/// nanoseconds on a monotonic clock.
pub struct SpanData {
    pub name: String,
    pub target: String,
    pub start_time: u64,
    pub fields: Vec<(String, String)>,
}

/// Records spans as a tracing layer reports them, giving each a sequential
/// identifier, and keeps the finished ones in a bounded buffer.
pub struct FluxelProfiler {
    buffer: RingBuffer,
    enabled: bool,
    next_id: u64,
    id_map: HashMap<u64, SpanId>,
    span_data: HashMap<SpanId, SpanData>,
}

impl FluxelProfiler {
    pub closed spec fn spec_buffer(&self) -> RingBuffer {
        self.buffer
    }

    pub closed spec fn spec_enabled(&self) -> bool {
        self.enabled
    }

    pub closed spec fn spec_next_id(&self) -> u64 {
        self.next_id
    }

    /// Identifiers given to tracing's span ids.
    pub closed spec fn id_map(&self) -> Map<u64, SpanId> {
        self.id_map@
    }

    /// Spans in flight, by identifier.
    pub closed spec fn in_flight(&self) -> Map<SpanId, SpanData> {
        self.span_data@
    }

    pub open spec fn wf(&self) -> bool {
        self.spec_buffer().wf()
    }

    /// A profiler that is enabled, has given no identifier and keeps up to
    /// `capacity` finished spans.
    pub fn new(capacity: usize) -> (r: FluxelProfiler)
        ensures
            r.wf(),
            r.spec_enabled(),
            r.spec_next_id() == 1,
            r.id_map() == Map::<u64, SpanId>::empty(),
            r.in_flight() == Map::<SpanId, SpanData>::empty(),
            r.spec_buffer()@ == Seq::<CompletedSpan>::empty(),
            r.spec_buffer().spec_capacity() == capacity,
    {
        FluxelProfiler {
            buffer: RingBuffer::new(capacity),
            enabled: true,
            next_id: 1,
            id_map: HashMap::new(),
            span_data: HashMap::new(),
        }
    }

    /// Turns span collection on or off.
    pub fn set_enabled(&mut self, enabled: bool)
        ensures
            final(self).spec_enabled() == enabled,
            final(self).spec_buffer() == old(self).spec_buffer(),
            final(self).spec_next_id() == old(self).spec_next_id(),
            final(self).id_map() == old(self).id_map(),
            final(self).in_flight() == old(self).in_flight(),
    {
        self.enabled = enabled;
    }

    pub fn is_enabled(&self) -> (r: bool)
        ensures
            r == self.spec_enabled(),
    {
        self.enabled
    }

    /// Number of finished spans kept.
    pub fn span_count(&self) -> (r: usize)
        ensures
            r == self.spec_buffer()@.len(),
    {
        self.buffer.len()
    }

    /// Most finished spans kept.
    pub fn capacity(&self) -> (r: usize)
        ensures
            r == self.spec_buffer().spec_capacity(),
    {
        self.buffer.capacity()
    }

    /// The finished spans kept.
    pub fn buffer(&self) -> (r: &RingBuffer)
        ensures
            *r == self.spec_buffer(),
    {
        &self.buffer
    }

    /// Drops the finished spans, the identifiers and the spans in flight.
    pub fn clear(&mut self)
        ensures
            final(self).wf(),
            final(self).spec_buffer()@ == Seq::<CompletedSpan>::empty(),
            final(self).spec_buffer().spec_capacity() == old(self).spec_buffer().spec_capacity(),
            final(self).id_map() == Map::<u64, SpanId>::empty(),
            final(self).in_flight() == Map::<SpanId, SpanData>::empty(),
            final(self).spec_enabled() == old(self).spec_enabled(),
            final(self).spec_next_id() == old(self).spec_next_id(),
    {
        self.buffer.clear();
        self.id_map.clear();
        self.span_data.clear();
    }

    /// Gives the next sequential identifier (wrapping).
    fn next_span_id(&mut self) -> (r: SpanId)
        ensures
            r == old(self).spec_next_id(),
            final(self).spec_next_id() == old(self).spec_next_id().wrapping_add(1),
            final(self).spec_buffer() == old(self).spec_buffer(),
            final(self).spec_enabled() == old(self).spec_enabled(),
            final(self).id_map() == old(self).id_map(),
            final(self).in_flight() == old(self).in_flight(),
    {
        let id = self.next_id;
        self.next_id = self.next_id.wrapping_add(1);
        id
    }

    /// The identifier given to tracing's span id `tracing_id`, if any.
    pub fn get_id(&self, tracing_id: u64) -> (r: Option<SpanId>)
        ensures
            match r {
                Some(id) => self.id_map().contains_key(tracing_id) && self.id_map()[tracing_id] == id,
                None => !self.id_map().contains_key(tracing_id),
            },
    {
        match self.id_map.get(&tracing_id) {
            Some(id) => Some(*id),
            None => None,
        }
    }

    /// The identifier of tracing's span id `tracing_id`, given now when it
    /// has none.
    pub fn map_id(&mut self, tracing_id: u64) -> (r: SpanId)
        ensures
            final(self).spec_buffer() == old(self).spec_buffer(),
            final(self).spec_enabled() == old(self).spec_enabled(),
            final(self).in_flight() == old(self).in_flight(),
            final(self).id_map() == old(self).id_map().insert(tracing_id, r),
            old(self).id_map().contains_key(tracing_id) ==> r == old(self).id_map()[tracing_id]
                && final(self).spec_next_id() == old(self).spec_next_id(),
            !old(self).id_map().contains_key(tracing_id) ==> r == old(self).spec_next_id()
                && final(self).spec_next_id() == old(self).spec_next_id().wrapping_add(1),
    {
        if let Some(id) = self.get_id(tracing_id) {
            proof {
                assert(old(self).id_map().insert(tracing_id, id) =~= old(self).id_map());
            }
            return id;
        }
        let id = self.next_span_id();
        self.id_map.insert(tracing_id, id);
        id
    }

    /// A span opened: when collecting, it gets an identifier and is kept in
    /// flight with its name, target, fields and start time.
    pub fn on_new_span(&mut self, tracing_id: u64, name: String, target: String, fields: Vec<(String, String)>, now: u64)
        ensures
            final(self).spec_buffer() == old(self).spec_buffer(),
            final(self).spec_enabled() == old(self).spec_enabled(),
            !old(self).spec_enabled() ==> *final(self) == *old(self),
            old(self).spec_enabled() ==> {
                let id = if old(self).id_map().contains_key(tracing_id) {
                    old(self).id_map()[tracing_id]
                } else {
                    old(self).spec_next_id()
                };
                &&& final(self).id_map() == old(self).id_map().insert(tracing_id, id)
                &&& final(self).in_flight() == old(self).in_flight().insert(
                    id,
                    SpanData { name, target, start_time: now, fields },
                )
            },
    {
        if !self.enabled {
            return;
        }
        let id = self.map_id(tracing_id);
        self.span_data.insert(id, SpanData { name, target, start_time: now, fields });
    }

    /// Fields recorded on an open span are added to its fields.
    pub fn on_record(&mut self, tracing_id: u64, fields: Vec<(String, String)>)
        ensures
            final(self).spec_buffer() == old(self).spec_buffer(),
            final(self).spec_enabled() == old(self).spec_enabled(),
            final(self).spec_next_id() == old(self).spec_next_id(),
            final(self).id_map() == old(self).id_map(),
            ({
                let target = if old(self).spec_enabled() && old(self).id_map().contains_key(tracing_id)
                    && old(self).in_flight().contains_key(old(self).id_map()[tracing_id]) {
                    Some(old(self).id_map()[tracing_id])
                } else {
                    None
                };
                match target {
                    Some(id) => {
                        let d0 = old(self).in_flight()[id];
                        let d1 = final(self).in_flight()[id];
                        &&& final(self).in_flight().dom() == old(self).in_flight().dom()
                        &&& forall|k: SpanId| k != id && #[trigger] old(self).in_flight().contains_key(k)
                            ==> final(self).in_flight()[k] == old(self).in_flight()[k]
                        &&& d1.name == d0.name && d1.target == d0.target && d1.start_time == d0.start_time
                        &&& d1.fields@ == d0.fields@ + fields@
                    },
                    None => final(self).in_flight() == old(self).in_flight(),
                }
            }),
    {
        if !self.enabled {
            return;
        }
        if let Some(id) = self.get_id(tracing_id) {
            if let Some(data) = self.span_data.remove(&id) {
                let mut data = data;
                let mut extra = fields;
                data.fields.append(&mut extra);
                self.span_data.insert(id, data);
                proof {
                    assert(self.in_flight().dom() =~= old(self).in_flight().dom());
                }
            }
        }
    }

    /// A span closed: when collecting and the span is in flight, it leaves
    /// the flight, is timed up to `now` (zero when `now` is earlier than its
    /// start), categorised, and pushed to the buffer with the identifier of
    /// its parent, `parent_tracing_id`, when that has one; its tracing id is
    /// then forgotten.
    pub fn on_close(&mut self, tracing_id: u64, parent_tracing_id: Option<u64>, now: u64)
        ensures
            old(self).wf() ==> final(self).wf(),
            final(self).spec_enabled() == old(self).spec_enabled(),
            final(self).spec_next_id() == old(self).spec_next_id(),
            ({
                let closing = old(self).spec_enabled() && old(self).id_map().contains_key(tracing_id)
                    && old(self).in_flight().contains_key(old(self).id_map()[tracing_id]);
                if closing {
                    let id = old(self).id_map()[tracing_id];
                    let d = old(self).in_flight()[id];
                    let parent = match parent_tracing_id {
                        Some(p) => if old(self).id_map().contains_key(p) { Some(old(self).id_map()[p]) } else { None },
                        None => None,
                    };
                    let pushed = CompletedSpan {
                        id,
                        parent_id: parent,
                        name: d.name,
                        target: d.target,
                        category: span_category(d.name@, d.target@, d.fields@),
                        start_time: d.start_time,
                        end_time: now,
                        duration_ns: if now >= d.start_time { (now - d.start_time) as u64 } else { 0u64 },
                        fields: d.fields,
                    };
                    &&& final(self).in_flight() == old(self).in_flight().remove(id)
                    &&& final(self).id_map() == old(self).id_map().remove(tracing_id)
                    &&& final(self).spec_buffer().spec_capacity() == old(self).spec_buffer().spec_capacity()
                    &&& final(self).spec_buffer()@ == if old(self).spec_buffer()@.len() >= old(self).spec_buffer().spec_capacity()
                        && old(self).spec_buffer()@.len() > 0 {
                        old(self).spec_buffer()@.drop_first().push(pushed)
                    } else {
                        old(self).spec_buffer()@.push(pushed)
                    }
                } else {
                    &&& final(self).in_flight() == old(self).in_flight()
                    &&& final(self).id_map() == old(self).id_map()
                    &&& final(self).spec_buffer() == old(self).spec_buffer()
                }
            }),
    {
        if !self.enabled {
            return;
        }
        let id = match self.get_id(tracing_id) {
            Some(id) => id,
            None => {
                return;
            },
        };
        let data = match self.span_data.remove(&id) {
            Some(data) => data,
            None => {
                proof {
                    assert(self.in_flight() =~= old(self).in_flight());
                }
                return;
            },
        };
        let parent_id = match parent_tracing_id {
            Some(p) => self.get_id(p),
            None => None,
        };
        let duration_ns = now.saturating_sub(data.start_time);
        let category = SpanCategory::from_span(data.name.as_str(), data.target.as_str(), data.fields.as_slice());
        let completed = CompletedSpan {
            id,
            parent_id,
            name: data.name,
            target: data.target,
            category,
            start_time: data.start_time,
            end_time: now,
            duration_ns,
            fields: data.fields,
        };
        self.buffer.push(completed);
        self.id_map.remove(&tracing_id);
    }
}

} // verus!
