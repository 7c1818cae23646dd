//! Relaying a native Responses stream: each upstream event goes through the
//! canonicalizer; its events are sent on, except the completion, which waits
//! until the response is stored; a canonicalization error fails the stream.
use vstd::prelude::*;
use crate::json::{JsonValue, JsonView};
use crate::events::{SseEvent, SseEventV, events_view};
use crate::canonicalizer::{ResponsesCanonicalizer, CanonV, OutcomeV, process_spec, interrupted};
use crate::stream_policy::{failure_events, stream_failure_events};

verus! {

/// The relay of one native Responses stream.
pub struct NativeRelay {
    pub canonicalizer: ResponsesCanonicalizer,
    /// Whether the completion event has come.
    pub saw_completed: bool,
}

/// What to do with what came of one upstream event.
#[derive(Debug)]
pub enum NativeStep {
    /// Record these events in order and send each one now, except a
    /// completion, which is held until the response is stored.
    Relay(Vec<SseEvent>),
    /// The stream failed: record and send these events, store the failure, stop.
    Fail(Vec<SseEvent>),
}

/// What to do once the upstream stream has ended.
#[derive(Debug)]
pub enum NativeEnd {
    /// The stream ended before completing: record and send these events, and
    /// store the failure.
    Fail(Vec<SseEvent>),
    /// The stream ended without a completion event: nothing is stored.
    Discard,
    /// The stream completed: store the response, then send the held completion.
    Store,
}

pub open spec fn has_completion(evs: Seq<SseEventV>) -> bool {
    exists|i: int| 0 <= i < evs.len() && (#[trigger] evs[i]) is Completed
}

/// The failure events of the stream a canonicalizer is relaying.
pub open spec fn failure_of(c: CanonV, e: crate::events::ApiErrorV) -> Seq<SseEventV> {
    failure_events(c.response_id, c.model, c.created_at, e)
}

/// Whether an event waits until the response is stored before it is sent.
pub fn held_until_stored(e: &SseEvent) -> (r: bool)
    ensures
        r == (e@ is Completed),
{
    match e {
        SseEvent::Completed { .. } => true,
        _ => false,
    }
}

fn any_completion(evs: &Vec<SseEvent>) -> (r: bool)
    ensures
        r == has_completion(events_view(evs@)),
{
    let mut i: usize = 0;
    while i < evs.len()
        invariant
            i <= evs@.len(),
            forall|k: int| 0 <= k < i ==> !(#[trigger] events_view(evs@)[k] is Completed),
        decreases evs@.len() - i,
    {
        if held_until_stored(&evs[i]) {
            assert(events_view(evs@)[i as int] is Completed);
            return true;
        }
        assert(events_view(evs@)[i as int] == evs@[i as int]@);
        i = i + 1;
    }
    false
}

impl NativeRelay {
    /// The relay of the response `response_id` of `model`, created at `created_at`.
    pub fn new(response_id: String, model: String, created_at: i64) -> (r: Self)
        ensures
            r.canonicalizer@.response_id == response_id@,
            r.canonicalizer@.model == model@,
            r.canonicalizer@.created_at == created_at,
            !r.canonicalizer@.completed,
            r.canonicalizer@.items.len() == 0,
            !r.saw_completed,
    {
        NativeRelay { canonicalizer: ResponsesCanonicalizer::new(response_id, model, created_at), saw_completed: false }
    }

    /// Handles one upstream event, given as parsed JSON (`None` when its data
    /// is not JSON, which is only recorded).
    pub fn on_event(&mut self, parsed: Option<&JsonValue>) -> (r: NativeStep)
        ensures
            match parsed {
                None => {
                    &&& final(self).canonicalizer@ == old(self).canonicalizer@
                    &&& final(self).saw_completed == old(self).saw_completed
                    &&& (r matches NativeStep::Relay(evs) && evs@.len() == 0)
                },
                Some(v) => {
                    let (c2, res) = process_spec(old(self).canonicalizer@, v@);
                    &&& final(self).canonicalizer@ == c2
                    &&& match res {
                        Ok(o) => (r matches NativeStep::Relay(evs) && events_view(evs@) == o.events)
                            && final(self).saw_completed == (old(self).saw_completed || has_completion(o.events)),
                        Err(e) => (r matches NativeStep::Fail(evs)
                            && events_view(evs@) == failure_of(old(self).canonicalizer@, e))
                            && final(self).saw_completed == old(self).saw_completed,
                    }
                },
            },
    {
        let v = match parsed {
            None => return NativeStep::Relay(Vec::new()),
            Some(v) => v,
        };
        let (id, model, created_at) = self.canonicalizer.response_identity();
        match self.canonicalizer.process_event(v) {
            Ok(outcome) => {
                let events = outcome.events;
                if any_completion(&events) {
                    self.saw_completed = true;
                }
                NativeStep::Relay(events)
            }
            Err(e) => NativeStep::Fail(stream_failure_events(id, model, created_at, e)),
        }
    }

    /// Decides what follows the end of the upstream stream.
    pub fn on_end(&mut self) -> (r: NativeEnd)
        ensures
            final(self).canonicalizer@ == old(self).canonicalizer@,
            final(self).saw_completed == old(self).saw_completed,
            old(self).saw_completed ==> r is Store,
            !old(self).saw_completed && old(self).canonicalizer@.completed ==> r is Discard,
            !old(self).saw_completed && !old(self).canonicalizer@.completed ==> (r matches NativeEnd::Fail(evs)
                && events_view(evs@) == failure_of(old(self).canonicalizer@,
                    interrupted("native Responses stream ended before completion event"@))),
    {
        if self.saw_completed {
            return NativeEnd::Store;
        }
        let (id, model, created_at) = self.canonicalizer.response_identity();
        match self.canonicalizer.finish_stream() {
            Ok(_) => NativeEnd::Discard,
            Err(e) => NativeEnd::Fail(stream_failure_events(id, model, created_at, e)),
        }
    }
}

} // verus!
