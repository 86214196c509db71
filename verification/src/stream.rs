//! The replayable event stream that browser clients follow: streamed text with a
//! hard byte cap, a bounded replay buffer of sequenced server-sent events, and
//! the per-client cursor that delivers each event at most once.

use vstd::prelude::*;
use vstd::utf8::*;
use vstd::string::StringSliceAdditionalSpecFns;
use vstd::slice::slice_to_vec;
use crate::text::{decimal, decimal_string, str_eq};
use crate::recovery::opt_str;
use crate::utf8::{
    utf8_len, lemma_encode_concat, lemma_encode_split, lemma_prefix_len_strictly_increasing,
    lemma_prefix_is_boundary, lemma_boundary_is_prefix, lemma_decode_suffix,
};

verus! {

broadcast use vstd::utf8::group_utf8_lib;

/// The most bytes of streamed text kept for one item.
pub const MAX_STREAMED_BYTES: usize = 262144;

/// The line that replaces text dropped from the front of a streamed item.
pub open spec fn truncation_marker() -> Seq<char> {
    "… output truncated …\n"@
}

/// `keep` is where the longest suffix of `text` whose encoding fits in
/// [`MAX_STREAMED_BYTES`] starts.
pub open spec fn is_cap_start(text: Seq<char>, keep: int) -> bool {
    &&& 0 <= keep <= text.len()
    &&& utf8_len(text.skip(keep)) <= MAX_STREAMED_BYTES
    &&& keep > 0 ==> utf8_len(text.skip(keep - 1)) > MAX_STREAMED_BYTES
}

/// What a streamed item holds after `delta` arrives: the text with `delta`
/// appended, or, when that exceeds [`MAX_STREAMED_BYTES`] bytes, the marker line
/// followed by the longest suffix of it that fits.
pub open spec fn truncated_append_spec(existing: Seq<char>, delta: Seq<char>, out: Seq<char>) -> bool {
    let text = existing + delta;
    if utf8_len(text) <= MAX_STREAMED_BYTES {
        out == text
    } else {
        exists|keep: int| is_cap_start(text, keep) && out == truncation_marker() + text.skip(keep)
    }
}

/// The index that the byte scan stops at is the start of the longest suffix that
/// fits.
proof fn lemma_scan_stops_at_cap_start(text: Seq<char>, start: int)
    requires
        utf8_len(text) > MAX_STREAMED_BYTES,
        utf8_len(text) - MAX_STREAMED_BYTES <= start <= utf8_len(text),
        is_char_boundary(encode_utf8(text), start),
        forall|i: int|
            utf8_len(text) - MAX_STREAMED_BYTES <= i < start ==> !#[trigger] is_char_boundary(encode_utf8(text), i),
    ensures
        exists|keep: int|
            is_cap_start(text, keep) && start == utf8_len(#[trigger] text.take(keep)),
{
    lemma_boundary_is_prefix(text, start);
    let keep = choose|j: int| 0 <= j <= text.len() && start == utf8_len(#[trigger] text.take(j));
    lemma_encode_split(text, keep);
    if keep > 0 {
        lemma_encode_split(text, keep - 1);
        lemma_prefix_len_strictly_increasing(text, keep - 1, keep);
        lemma_prefix_is_boundary(text, keep - 1);
        let earlier = utf8_len(text.take(keep - 1)) as int;
        if earlier >= utf8_len(text) - MAX_STREAMED_BYTES {
            assert(!is_char_boundary(encode_utf8(text), earlier));
        }
    }
    assert(is_cap_start(text, keep));
}

/// Appends `delta` to the streamed text `existing`, keeping at most
/// [`MAX_STREAMED_BYTES`] bytes of it: when the combined text is longer, its
/// front is cut at the first character boundary that leaves no more than that
/// many bytes, and a marker line takes its place.
pub fn truncated_append(existing: &str, delta: &str) -> (out: String)
    ensures
        truncated_append_spec(existing@, delta@, out@),
{
    let mut combined = String::from_str(existing);
    combined.append(delta);
    let text: &str = combined.as_str();
    let ghost chars = existing@ + delta@;
    let ghost bytes = encode_utf8(chars);
    assert(text@ == chars);
    let len = text.as_bytes().len();
    assert(len == utf8_len(chars));
    if len <= MAX_STREAMED_BYTES {
        return combined;
    }
    let mut start = len - MAX_STREAMED_BYTES;
    while !text.is_char_boundary(start)
        invariant
            text@ == chars,
            bytes == encode_utf8(chars),
            text.spec_bytes() == bytes,
            len == bytes.len(),
            len > MAX_STREAMED_BYTES,
            len - MAX_STREAMED_BYTES <= start <= len,
            forall|i: int|
                len - MAX_STREAMED_BYTES <= i < start ==> !#[trigger] is_char_boundary(bytes, i),
        decreases len - start,
    {
        proof {
            is_char_boundary_start_end_of_seq(bytes);
        }
        start = start + 1;
    }
    proof {
        lemma_scan_stops_at_cap_start(chars, start as int);
    }
    let (_, tail) = text.split_at(start);
    let ghost keep = choose|keep: int|
        is_cap_start(chars, keep) && start == utf8_len(#[trigger] chars.take(keep));
    proof {
        lemma_decode_suffix(chars, keep);
        assert(tail.spec_bytes() == bytes.subrange(start as int, len as int));
        assert(tail@ == decode_utf8(tail.spec_bytes()));
        assert(tail@ == chars.skip(keep));
    }
    let mut out = String::from_str("… output truncated …\n");
    out.append(tail);
    out
}

/// The combined text never exceeds the cap by more than the marker line.
pub proof fn lemma_streamed_text_is_capped(existing: Seq<char>, delta: Seq<char>, out: Seq<char>)
    requires
        truncated_append_spec(existing, delta, out),
    ensures
        utf8_len(out) <= MAX_STREAMED_BYTES + utf8_len(truncation_marker()),
{
    let text = existing + delta;
    if utf8_len(text) > MAX_STREAMED_BYTES {
        let keep = choose|keep: int|
            is_cap_start(text, keep) && out == truncation_marker() + text.skip(keep);
        lemma_encode_concat(truncation_marker(), text.skip(keep));
    }
}

/// A delta that fits in the cap by itself always survives whole at the end of
/// the streamed text.
pub proof fn lemma_streamed_text_keeps_delta(existing: Seq<char>, delta: Seq<char>, out: Seq<char>)
    requires
        truncated_append_spec(existing, delta, out),
        utf8_len(delta) <= MAX_STREAMED_BYTES,
    ensures
        out.len() >= delta.len(),
        out.skip(out.len() - delta.len()) == delta,
{
    let text = existing + delta;
    if utf8_len(text) <= MAX_STREAMED_BYTES {
        assert(out.skip(out.len() - delta.len()) =~= delta);
    } else {
        let keep = choose|keep: int|
            is_cap_start(text, keep) && out == truncation_marker() + text.skip(keep);
        if keep > existing.len() {
            let j = keep - 1;
            assert(text.skip(existing.len() as int) =~= delta);
            lemma_encode_split(delta, j - existing.len());
            assert(delta.skip(j - existing.len()) =~= text.skip(j));
            assert(false);
        }
        assert(out.skip(out.len() - delta.len()) =~= delta);
    }
}

/// The most events the replay buffer keeps.
pub const REPLAY_EVENT_CAPACITY: usize = 4096;

/// The most bytes of encoded events the replay buffer keeps.
pub const REPLAY_BYTE_CAPACITY: usize = 4194304;

/// The server-sent-event frame that carries the JSON text `data` under the
/// event id `seq`.
pub open spec fn sse_frame(seq: u64, data: Seq<char>) -> Seq<char> {
    "id: "@ + decimal(seq as nat) + "\ndata: "@ + data + "\n\n"@
}

/// The bytes of `s` in UTF-8.
pub fn utf8_bytes(s: &str) -> (bytes: Vec<u8>)
    ensures
        bytes@ == encode_utf8(s@),
{
    slice_to_vec(s.as_bytes())
}

/// The encoded frame for `data` under the id `seq`.
pub fn encode_frame(seq: u64, data: &str) -> (bytes: Vec<u8>)
    ensures
        bytes@ == encode_utf8(sse_frame(seq, data@)),
{
    let digits = decimal_string(seq);
    let mut text = String::from_str("id: ");
    text.append(digits.as_str());
    text.append("\ndata: ");
    text.append(data);
    text.append("\n\n");
    utf8_bytes(text.as_str())
}

/// The JSON text that `serde_json` writes for the object whose JSON text is
/// `json` with the member `key` set to the number `value` (added, or replacing
/// a member of that name); absent when `json` is not the text of a JSON object.
pub uninterp spec fn json_object_with(json: Seq<char>, key: Seq<char>, value: u64) -> Option<Seq<char>>;

/// Parses `json` with `serde_json`, sets the member `key` of an object to
/// `value` and writes the object back with `Display` (compact).
///
/// Trusted: the result is [`json_object_with`] of the arguments; it is absent
/// when the text does not parse or is not an object.
#[verifier::external_body]
fn object_with_number(json: &str, key: &str, value: u64) -> (r: Option<String>)
    ensures
        match r {
            Some(t) => json_object_with(json@, key@, value) == Some(t@),
            None => json_object_with(json@, key@, value) is None,
        },
{
    match serde_json::from_str::<serde_json::Value>(json) {
        Ok(serde_json::Value::Object(mut map)) => {
            map.insert(key.to_owned(), serde_json::Value::from(value));
            Some(serde_json::Value::Object(map).to_string())
        },
        _ => None,
    }
}

/// The text of an event published under `seq`: an object gets its sequence
/// number as the member `seq`; any other text is kept.
pub open spec fn stamped_event(data: Seq<char>, seq: u64) -> Seq<char> {
    match json_object_with(data, "seq"@, seq) {
        Some(t) => t,
        None => data,
    }
}

/// An event as published: its sequence number and its encoded frame.
#[derive(Debug)]
pub struct SequencedEvent {
    pub seq: u64,
    pub encoded: Vec<u8>,
}

/// The mathematical content of a [`SequencedEvent`].
pub struct FrameView {
    pub seq: u64,
    pub bytes: Seq<u8>,
}

impl View for SequencedEvent {
    type V = FrameView;

    open spec fn view(&self) -> FrameView {
        FrameView { seq: self.seq, bytes: self.encoded@ }
    }
}

impl SequencedEvent {
    /// A copy of the event.
    pub fn duplicate(&self) -> (copy: SequencedEvent)
        ensures
            copy@ == self@,
    {
        SequencedEvent { seq: self.seq, encoded: slice_to_vec(self.encoded.as_slice()) }
    }
}

/// The number of encoded bytes in `events`.
pub open spec fn total_bytes(events: Seq<FrameView>) -> nat
    decreases events.len(),
{
    if events.len() == 0 {
        0
    } else {
        events[0].bytes.len() + total_bytes(events.drop_first())
    }
}

/// `events` stays within both capacities of the replay buffer.
pub open spec fn within_capacity(events: Seq<FrameView>) -> bool {
    events.len() <= REPLAY_EVENT_CAPACITY && total_bytes(events) <= REPLAY_BYTE_CAPACITY
}

/// What remains of `events` after the oldest are dropped, one at a time, until
/// both capacities are met.
pub open spec fn evict_oldest(events: Seq<FrameView>) -> Seq<FrameView>
    decreases events.len(),
{
    if events.len() == 0 || within_capacity(events) {
        events
    } else {
        evict_oldest(events.drop_first())
    }
}

/// The sequence numbers in `events` are consecutive and end just before `next`.
pub open spec fn consecutive_before(events: Seq<FrameView>, next: u64) -> bool {
    forall|i: int| 0 <= i < events.len() ==> #[trigger] events[i].seq == next - events.len() + i
}

proof fn lemma_total_bytes_push(events: Seq<FrameView>, e: FrameView)
    ensures
        total_bytes(events.push(e)) == total_bytes(events) + e.bytes.len(),
    decreases events.len(),
{
    if events.len() > 0 {
        assert(events.push(e)[0] == events[0]);
        assert(events.push(e).drop_first() =~= events.drop_first().push(e));
        lemma_total_bytes_push(events.drop_first(), e);
    } else {
        assert(events.push(e)[0] == e);
        assert(events.push(e).drop_first() =~= events);
    }
}

proof fn lemma_total_bytes_at_least_last(events: Seq<FrameView>)
    requires
        events.len() > 0,
    ensures
        total_bytes(events) >= events.last().bytes.len(),
    decreases events.len(),
{
    if events.len() > 1 {
        lemma_total_bytes_at_least_last(events.drop_first());
    }
}

proof fn lemma_oversized_last_evicts_all(events: Seq<FrameView>)
    requires
        events.len() > 0,
        events.last().bytes.len() > REPLAY_BYTE_CAPACITY,
    ensures
        evict_oldest(events) =~= Seq::<FrameView>::empty(),
    decreases events.len(),
{
    lemma_total_bytes_at_least_last(events);
    assert(!within_capacity(events));
    if events.len() > 1 {
        assert(events.drop_first().last() == events.last());
        lemma_oversized_last_evicts_all(events.drop_first());
    } else {
        assert(events.drop_first() =~= Seq::<FrameView>::empty());
        assert(evict_oldest(Seq::<FrameView>::empty()) =~= Seq::<FrameView>::empty());
    }
}

/// Evicting keeps a suffix of the events, with consecutive numbering kept too.
proof fn lemma_evict_is_suffix(events: Seq<FrameView>, next: u64)
    ensures
        within_capacity(evict_oldest(events)),
        evict_oldest(events).len() <= events.len(),
        evict_oldest(events) =~= events.skip(events.len() - evict_oldest(events).len()),
        consecutive_before(events, next) ==> consecutive_before(evict_oldest(events), next),
    decreases events.len(),
{
    if events.len() == 0 || within_capacity(events) {
        assert(events.skip(0) =~= events);
    } else {
        lemma_evict_is_suffix(events.drop_first(), next);
        let rest = evict_oldest(events.drop_first());
        assert(events.drop_first().skip(events.drop_first().len() - rest.len()) =~= events.skip(
            events.len() - rest.len(),
        ));
        if consecutive_before(events, next) {
            assert forall|i: int| 0 <= i < events.drop_first().len() implies #[trigger] events.drop_first()[i].seq
                == next - events.drop_first().len() + i by {
                assert(events.drop_first()[i] == events[i + 1]);
            }
        }
    }
}

/// The buffered events that browsers can replay, oldest first.
pub struct ReplayState {
    events: std::collections::VecDeque<SequencedEvent>,
    bytes: usize,
}

impl View for ReplayState {
    type V = Seq<FrameView>;

    closed spec fn view(&self) -> Seq<FrameView> {
        self.events@.map_values(|e: SequencedEvent| e@)
    }
}

impl ReplayState {
    /// The buffer is within both capacities and its byte count is exact.
    pub closed spec fn wf(&self) -> bool {
        &&& within_capacity(self@)
        &&& self.bytes == total_bytes(self@)
    }

    /// An empty buffer.
    pub fn new() -> (state: ReplayState)
        ensures
            state.wf(),
            state@ == Seq::<FrameView>::empty(),
    {
        let state = ReplayState { events: std::collections::VecDeque::new(), bytes: 0 };
        assert(state@ =~= Seq::<FrameView>::empty());
        state
    }

    /// The number of buffered events.
    pub fn len(&self) -> (n: usize)
        ensures
            n == self@.len(),
    {
        self.events.len()
    }

    /// Adds `event` at the back, then drops the oldest events until both
    /// capacities are met again.
    pub fn push(&mut self, event: SequencedEvent)
        requires
            old(self).wf(),
        ensures
            final(self).wf(),
            final(self)@ == evict_oldest(old(self)@.push(event@)),
    {
        let ghost before = self@;
        let ghost pushed = before.push(event@);
        proof {
            lemma_total_bytes_push(before, event@);
            lemma_evict_is_suffix(pushed, 0);
        }
        let size = event.encoded.len();
        if size > REPLAY_BYTE_CAPACITY {
            proof {
                lemma_oversized_last_evicts_all(pushed);
            }
            self.events = std::collections::VecDeque::new();
            self.bytes = 0;
            assert(self@ =~= evict_oldest(pushed));
            return;
        }
        self.bytes = self.bytes + size;
        self.events.push_back(event);
        assert(self@ =~= pushed);
        while self.events.len() > REPLAY_EVENT_CAPACITY || self.bytes > REPLAY_BYTE_CAPACITY
            invariant
                self.bytes == total_bytes(self@),
                self.bytes <= REPLAY_BYTE_CAPACITY + size,
                evict_oldest(self@) == evict_oldest(pushed),
            decreases self@.len(),
        {
            let ghost current = self@;
            let evicted = self.events.pop_front();
            match evicted {
                Some(e) => {
                    assert(self@ =~= current.drop_first());
                    self.bytes = self.bytes - e.encoded.len();
                },
                None => {
                    assert(current.len() == 0);
                    assert(false);
                },
            }
        }
    }
}

/// The events that a reconnecting client receives, and whether it missed events
/// that are no longer buffered.
pub struct ReplayBatch {
    pub events: Vec<SequencedEvent>,
    pub gap: bool,
}

/// The shared, replayable log of events published to browser clients.
pub struct LiveEventHub {
    next_seq: u64,
    replay: ReplayState,
}

/// The sequence number a client is taken to have seen: the one it names, or the
/// latest published when it names none.
pub open spec fn requested_seq(last_event_id: Option<u64>, watermark: u64) -> u64 {
    match last_event_id {
        Some(id) => id,
        None => watermark,
    }
}

/// A client that has seen `requested` missed events the buffer no longer holds.
pub open spec fn replay_gap(buffered: Seq<FrameView>, requested: u64) -> bool {
    buffered.len() > 0 && requested + 1 < buffered[0].seq
}

/// The buffered events newer than `requested`, oldest first.
pub open spec fn events_after(buffered: Seq<FrameView>, requested: u64) -> Seq<FrameView> {
    buffered.filter(|e: FrameView| e.seq > requested)
}

impl LiveEventHub {
    /// The log holds a consistent buffer whose events were numbered in order up to
    /// the next number to hand out.
    pub closed spec fn wf(&self) -> bool {
        &&& self.replay.wf()
        &&& self.next_seq >= 1
        &&& consecutive_before(self.replay@, self.next_seq)
    }

    /// The sequence number that the next published event receives.
    pub closed spec fn next_seq_spec(&self) -> u64 {
        self.next_seq
    }

    /// The buffered events, oldest first.
    pub closed spec fn buffered(&self) -> Seq<FrameView> {
        self.replay@
    }

    /// An empty log whose first event will be numbered 1.
    pub fn new() -> (hub: LiveEventHub)
        ensures
            hub.wf(),
            hub.next_seq_spec() == 1,
            hub.buffered() == Seq::<FrameView>::empty(),
    {
        LiveEventHub { next_seq: 1, replay: ReplayState::new() }
    }

    /// The sequence number that the next published event receives.
    pub fn next_seq(&self) -> (seq: u64)
        ensures
            seq == self.next_seq_spec(),
    {
        self.next_seq
    }

    /// The sequence number of the latest published event, or 0 before the first.
    pub fn watermark(&self) -> (seq: u64)
        requires
            self.wf(),
        ensures
            seq == self.next_seq_spec() - 1,
    {
        self.next_seq - 1
    }

    /// Numbers the event whose JSON text is `data`, adds the number to it as
    /// `seq` when it is an object, frames it, and buffers it for replay. The
    /// frame is returned for delivery to connected clients.
    pub fn publish(&mut self, data: &str) -> (event: SequencedEvent)
        requires
            old(self).wf(),
            old(self).next_seq_spec() < u64::MAX,
        ensures
            final(self).wf(),
            event.seq == old(self).next_seq_spec(),
            event.encoded@ == encode_utf8(sse_frame(event.seq, stamped_event(data@, event.seq))),
            final(self).next_seq_spec() == old(self).next_seq_spec() + 1,
            final(self).buffered() == evict_oldest(old(self).buffered().push(event@)),
    {
        let seq = self.next_seq;
        self.next_seq = seq + 1;
        let stamped = match object_with_number(data, "seq", seq) {
            Some(text) => text,
            None => String::from_str(data),
        };
        proof {
            reveal_strlit("seq");
        }
        let encoded = encode_frame(seq, stamped.as_str());
        let event = SequencedEvent { seq, encoded };
        let copy = event.duplicate();
        let ghost pushed = self.replay@.push(event@);
        assert(consecutive_before(pushed, self.next_seq)) by {
            assert forall|i: int| 0 <= i < pushed.len() implies #[trigger] pushed[i].seq
                == self.next_seq - pushed.len() + i by {
                if i < pushed.len() - 1 {
                    assert(pushed[i] == old(self).replay@[i]);
                }
            }
        }
        self.replay.push(copy);
        proof {
            lemma_evict_is_suffix(pushed, self.next_seq);
        }
        event
    }

    /// The events a client that last saw `last_event_id` (or, naming none, the
    /// latest event) has not seen, and whether some of them are no longer
    /// buffered.
    pub fn replay_after(&self, last_event_id: Option<u64>) -> (batch: ReplayBatch)
        requires
            self.wf(),
        ensures
            batch.gap == replay_gap(
                self.buffered(),
                requested_seq(last_event_id, (self.next_seq_spec() - 1) as u64),
            ),
            batch.events@.map_values(|e: SequencedEvent| e@) == events_after(
                self.buffered(),
                requested_seq(last_event_id, (self.next_seq_spec() - 1) as u64),
            ),
    {
        let requested = match last_event_id {
            Some(id) => id,
            None => self.watermark(),
        };
        let count = self.replay.events.len();
        let gap = count > 0 && requested.saturating_add(1) < self.replay.events[0].seq;
        let ghost buffered = self.replay@;
        let ghost pred = |e: FrameView| e.seq > requested;
        let mut events: Vec<SequencedEvent> = Vec::new();
        let mut i: usize = 0;
        while i < count
            invariant
                count == self.replay.events@.len(),
                buffered == self.replay@,
                pred == (|e: FrameView| e.seq > requested),
                0 <= i <= count,
                events@.map_values(|e: SequencedEvent| e@) == buffered.take(i as int).filter(pred),
            decreases count - i,
        {
            let e = &self.replay.events[i];
            let ghost before = events@.map_values(|e: SequencedEvent| e@);
            proof {
                reveal(Seq::filter);
                assert(buffered.take(i + 1).drop_last() =~= buffered.take(i as int));
                assert(buffered.take(i + 1).last() == buffered[i as int]);
                assert(buffered[i as int] == e@);
            }
            if e.seq > requested {
                let copy = e.duplicate();
                events.push(copy);
                assert(events@.map_values(|e: SequencedEvent| e@) =~= before.push(copy@));
                assert(pred(e@));
            } else {
                assert(!pred(e@));
            }
            i = i + 1;
        }
        assert(buffered.take(count as int) =~= buffered);
        ReplayBatch { events, gap }
    }
}

/// The buffer stays within its capacities, and the events in it carry
/// consecutive numbers ending just before the next number to hand out.
pub proof fn lemma_buffer_is_bounded_and_consecutive(hub: &LiveEventHub)
    requires
        hub.wf(),
    ensures
        within_capacity(hub.buffered()),
        consecutive_before(hub.buffered(), hub.next_seq_spec()),
{
}

/// A client whose replay reports no gap, while anything is buffered, receives
/// every event published after the one it last saw.
pub proof fn lemma_replay_without_gap_is_complete(
    hub: &LiveEventHub,
    last_event_id: Option<u64>,
    seq: u64,
)
    requires
        hub.wf(),
        hub.buffered().len() > 0,
        !replay_gap(
            hub.buffered(),
            requested_seq(last_event_id, (hub.next_seq_spec() - 1) as u64),
        ),
        requested_seq(last_event_id, (hub.next_seq_spec() - 1) as u64) < seq
            < hub.next_seq_spec(),
    ensures
        exists|i: int|
            0 <= i < events_after(
                hub.buffered(),
                requested_seq(last_event_id, (hub.next_seq_spec() - 1) as u64),
            ).len() && (#[trigger] events_after(
                hub.buffered(),
                requested_seq(last_event_id, (hub.next_seq_spec() - 1) as u64),
            )[i]).seq == seq,
{
    broadcast use vstd::seq_lib::group_filter_ensures;

    let buffered = hub.buffered();
    let requested = requested_seq(last_event_id, (hub.next_seq_spec() - 1) as u64);
    let pred = |e: FrameView| e.seq > requested;
    let first = hub.next_seq_spec() - buffered.len();
    assert(buffered[0].seq == first);
    let idx = seq - first;
    assert(buffered[idx].seq == seq);
    buffered.lemma_filter_contains(pred, idx);
    let filtered = buffered.filter(pred);
    assert(filtered.contains(buffered[idx]));
    let j = choose|j: int| 0 <= j < filtered.len() && filtered[j] == buffered[idx];
    assert(events_after(buffered, requested)[j].seq == seq);
}

/// The JSON text of a resynchronisation notice.
pub open spec fn resync_json(seq: u64, reason: Seq<char>) -> Seq<char> {
    "{\"op\":\"resync\",\"reason\":\""@ + reason + "\",\"seq\":"@ + decimal(seq as nat)
        + "}"@
}

/// The encoded frame telling a client to resynchronise at `seq`.
fn resync_frame(seq: u64, reason: &str) -> (bytes: Vec<u8>)
    ensures
        bytes@ == encode_utf8(sse_frame(seq, resync_json(seq, reason@))),
{
    let digits = decimal_string(seq);
    let mut json = String::from_str("{\"op\":\"resync\",\"reason\":\"");
    json.append(reason);
    json.append("\",\"seq\":");
    json.append(digits.as_str());
    json.append("}");
    encode_frame(seq, json.as_str())
}

/// The comment frame sent periodically to keep idle connections open.
pub fn keepalive_frame() -> (bytes: Vec<u8>)
    ensures
        bytes@ == encode_utf8(": keepalive\n\n"@),
{
    utf8_bytes(": keepalive\n\n")
}

/// The larger of `delivered` and every sequence number in `events`.
pub open spec fn highest_seq(delivered: u64, events: Seq<FrameView>) -> u64
    decreases events.len(),
{
    if events.len() == 0 {
        delivered
    } else {
        let before = highest_seq(delivered, events.drop_last());
        if events.last().seq > before {
            events.last().seq
        } else {
            before
        }
    }
}

/// Where one client's event stream stands: the highest sequence number it has
/// been sent.
pub struct StreamCursor {
    pub delivered: u64,
}

impl StreamCursor {
    /// A cursor for a client that last saw `last_event_id`, or nothing.
    pub fn new(last_event_id: Option<u64>) -> (cursor: StreamCursor)
        ensures
            cursor.delivered == (match last_event_id {
                Some(id) => id,
                None => 0,
            }),
    {
        match last_event_id {
            Some(id) => StreamCursor { delivered: id },
            None => StreamCursor { delivered: 0 },
        }
    }

    /// The frames that open the stream from a replay: a single notice to
    /// resynchronise at `watermark` when the replay has a gap, else the replayed
    /// events in order.
    pub fn open_frames(&mut self, batch: &ReplayBatch, watermark: u64) -> (frames: Vec<Vec<u8>>)
        ensures
            batch.gap ==> {
                &&& frames@.len() == 1
                &&& frames@[0]@ == encode_utf8(
                    sse_frame(watermark, resync_json(watermark, "replayExpired"@)),
                )
                &&& final(self).delivered == watermark
            },
            !batch.gap ==> {
                &&& frames@.map_values(|f: Vec<u8>| f@) == batch.events@.map_values(
                    |e: SequencedEvent| e@.bytes,
                )
                &&& final(self).delivered == highest_seq(
                    old(self).delivered,
                    batch.events@.map_values(|e: SequencedEvent| e@),
                )
            },
    {
        let mut frames: Vec<Vec<u8>> = Vec::new();
        if batch.gap {
            frames.push(resync_frame(watermark, "replayExpired"));
            self.delivered = watermark;
            return frames;
        }
        let ghost start = self.delivered;
        let ghost views = batch.events@.map_values(|e: SequencedEvent| e@);
        let mut i: usize = 0;
        while i < batch.events.len()
            invariant
                !batch.gap,
                views == batch.events@.map_values(|e: SequencedEvent| e@),
                0 <= i <= batch.events@.len(),
                frames@.map_values(|f: Vec<u8>| f@) == batch.events@.take(i as int).map_values(
                    |e: SequencedEvent| e@.bytes,
                ),
                self.delivered == highest_seq(start, views.take(i as int)),
            decreases batch.events@.len() - i,
        {
            let event = &batch.events[i];
            let ghost before = frames@.map_values(|f: Vec<u8>| f@);
            let ghost seen = views.take(i as int);
            if event.seq > self.delivered {
                self.delivered = event.seq;
            }
            let frame = slice_to_vec(event.encoded.as_slice());
            assert(frame@ == event.encoded@);
            frames.push(frame);
            proof {
                assert(frames@.map_values(|f: Vec<u8>| f@) =~= before.push(frame@));
                assert(batch.events@[i as int] == *event);
                assert(batch.events@.take(i + 1).map_values(|e: SequencedEvent| e@.bytes)
                    =~= batch.events@.take(i as int).map_values(|e: SequencedEvent| e@.bytes).push(
                    event@.bytes,
                ));
                assert(views.take(i + 1).drop_last() =~= seen);
                assert(views.take(i + 1).last() == event@);
                assert(frames@.map_values(|f: Vec<u8>| f@) =~= batch.events@.take(i + 1).map_values(
                    |e: SequencedEvent| e@.bytes,
                ));
            }
            i = i + 1;
        }
        proof {
            assert(batch.events@.take(i as int) =~= batch.events@);
            assert(views.take(i as int) =~= views);
        }
        frames
    }

    /// The frame for a live event, sent only when the client has not been sent
    /// that event or a later one.
    pub fn deliver(&mut self, event: &SequencedEvent) -> (frame: Option<Vec<u8>>)
        ensures
            frame is Some <==> event.seq > old(self).delivered,
            frame is Some ==> frame->0@ == event.encoded@ && final(self).delivered == event.seq,
            frame is None ==> final(self).delivered == old(self).delivered,
    {
        if event.seq > self.delivered {
            self.delivered = event.seq;
            Some(slice_to_vec(event.encoded.as_slice()))
        } else {
            None
        }
    }

    /// The frame telling a client that fell behind the live feed to resynchronise
    /// at `watermark`.
    pub fn resync_after_lag(&mut self, watermark: u64) -> (frame: Vec<u8>)
        ensures
            frame@ == encode_utf8(sse_frame(watermark, resync_json(watermark, "clientLagged"@))),
            final(self).delivered == watermark,
    {
        self.delivered = watermark;
        resync_frame(watermark, "clientLagged")
    }
}

// ---------------------------------------------------------------------------
// Rendering app-server notifications

/// The thread and turn that a notification belongs to.
#[derive(Debug)]
pub struct Scope {
    pub thread_id: String,
    pub turn_id: String,
}

/// A streamed item, identified within its thread and turn.
#[derive(Debug)]
pub struct ItemKey {
    pub thread_id: String,
    pub turn_id: String,
    pub item_id: String,
}

/// Text of an optional field, empty when absent.
pub open spec fn text_or_empty(o: Option<Seq<char>>) -> Seq<char> {
    match o {
        Some(t) => t,
        None => Seq::empty(),
    }
}

fn owned_or_empty(o: Option<&str>) -> (s: String)
    ensures
        s@ == text_or_empty(opt_str(o)),
{
    match o {
        Some(t) => String::from_str(t),
        None => String::new(),
    }
}

impl Scope {
    /// The scope named by a notification's `threadId`, and its `turnId` or else
    /// the id of its nested `turn`; absent ids are empty.
    pub fn from_fields(thread_id: Option<&str>, turn_id: Option<&str>, nested_turn_id: Option<&str>) -> (scope: Scope)
        ensures
            scope.thread_id@ == text_or_empty(opt_str(thread_id)),
            scope.turn_id@ == text_or_empty(
                match turn_id {
                    Some(t) => Some(t@),
                    None => opt_str(nested_turn_id),
                },
            ),
    {
        let turn = match turn_id {
            Some(t) => String::from_str(t),
            None => owned_or_empty(nested_turn_id),
        };
        Scope { thread_id: owned_or_empty(thread_id), turn_id: turn }
    }

    /// The key of the item `item_id` within this scope.
    pub fn item_key(&self, item_id: &str) -> (key: ItemKey)
        ensures
            key.thread_id@ == self.thread_id@,
            key.turn_id@ == self.turn_id@,
            key.item_id@ == item_id@,
    {
        ItemKey {
            thread_id: self.thread_id.clone(),
            turn_id: self.turn_id.clone(),
            item_id: String::from_str(item_id),
        }
    }
}

/// Which text a streaming delta extends.
#[derive(Debug, Clone, Copy, PartialEq, Eq, Structural)]
pub enum DeltaTarget {
    /// The `text` of an agent message.
    AgentMessage,
    /// The `text` of a plan.
    Plan,
    /// The `aggregatedOutput` of a command execution.
    CommandOutput,
    /// The `output` of a file change.
    FileChangeOutput,
    /// One entry of a reasoning item's `content`, chosen by `contentIndex`.
    ReasoningContent,
    /// One entry of a reasoning item's `summary`, chosen by `summaryIndex`.
    ReasoningSummary,
}

/// The type of the item that a delta for `target` extends.
pub open spec fn delta_item_type(target: DeltaTarget) -> Seq<char> {
    match target {
        DeltaTarget::AgentMessage => "agentMessage"@,
        DeltaTarget::Plan => "plan"@,
        DeltaTarget::CommandOutput => "commandExecution"@,
        DeltaTarget::FileChangeOutput => "fileChange"@,
        DeltaTarget::ReasoningContent => "reasoning"@,
        DeltaTarget::ReasoningSummary => "reasoning"@,
    }
}

impl DeltaTarget {
    /// The type of item created when the delta arrives before the item.
    pub fn item_type(self) -> (t: &'static str)
        ensures
            t@ == delta_item_type(self),
            t@ == (match self {
                DeltaTarget::AgentMessage => "agentMessage"@,
                DeltaTarget::Plan => "plan"@,
                DeltaTarget::CommandOutput => "commandExecution"@,
                DeltaTarget::FileChangeOutput => "fileChange"@,
                _ => "reasoning"@,
            }),
    {
        match self {
            DeltaTarget::AgentMessage => "agentMessage",
            DeltaTarget::Plan => "plan",
            DeltaTarget::CommandOutput => "commandExecution",
            DeltaTarget::FileChangeOutput => "fileChange",
            _ => "reasoning",
        }
    }

    /// The item field that the delta extends.
    pub fn field(self) -> (f: &'static str)
        ensures
            f@ == (match self {
                DeltaTarget::AgentMessage => "text"@,
                DeltaTarget::Plan => "text"@,
                DeltaTarget::CommandOutput => "aggregatedOutput"@,
                DeltaTarget::FileChangeOutput => "output"@,
                DeltaTarget::ReasoningContent => "content"@,
                DeltaTarget::ReasoningSummary => "summary"@,
            }),
    {
        match self {
            DeltaTarget::AgentMessage => "text",
            DeltaTarget::Plan => "text",
            DeltaTarget::CommandOutput => "aggregatedOutput",
            DeltaTarget::FileChangeOutput => "output",
            DeltaTarget::ReasoningContent => "content",
            DeltaTarget::ReasoningSummary => "summary",
        }
    }

    /// The notification field that picks the entry, for indexed targets.
    pub fn index_field(self) -> (f: Option<&'static str>)
        ensures
            opt_str(f) == (match self {
                DeltaTarget::ReasoningContent => Some("contentIndex"@),
                DeltaTarget::ReasoningSummary => Some("summaryIndex"@),
                _ => None,
            }),
    {
        match self {
            DeltaTarget::ReasoningContent => Some("contentIndex"),
            DeltaTarget::ReasoningSummary => Some("summaryIndex"),
            _ => None,
        }
    }
}

/// What a notification becomes in the browser's event stream.
#[derive(Debug, Clone, Copy, PartialEq, Eq, Structural)]
pub enum StreamOp {
    /// An item started: render it while streaming.
    ItemStarted,
    /// An item completed: render it finished.
    ItemCompleted,
    /// Streamed text for an item.
    Delta(DeltaTarget),
    /// A turn started.
    TurnStarted,
    /// A turn completed.
    TurnCompleted,
    /// A thread's status changed.
    ThreadStatus,
    /// A thread's permission settings changed.
    ThreadSettings,
    /// A thread's goal changed.
    GoalUpdated,
    /// A thread's goal was cleared.
    GoalCleared,
    /// The available skills changed.
    SkillsChanged,
    /// A warning or error notice; `true` for errors.
    Notice(bool),
    /// An MCP server login finished.
    McpAuthCompleted,
    /// A pending request was answered elsewhere.
    RequestResolved,
    /// A request from the app-server awaiting the user's decision.
    ServerRequest,
    /// Not shown.
    Ignored,
}

/// The stream operation for a message with method `method`; `has_id` tells
/// whether the message carries an `id` (requests do, notifications do not).
pub open spec fn stream_op_spec(method: Seq<char>, has_id: bool) -> StreamOp {
    if method == "item/started"@ {
        StreamOp::ItemStarted
    } else if method == "item/completed"@ {
        StreamOp::ItemCompleted
    } else if method == "item/agentMessage/delta"@ {
        StreamOp::Delta(DeltaTarget::AgentMessage)
    } else if method == "item/plan/delta"@ {
        StreamOp::Delta(DeltaTarget::Plan)
    } else if method == "item/commandExecution/outputDelta"@ {
        StreamOp::Delta(DeltaTarget::CommandOutput)
    } else if method == "item/fileChange/outputDelta"@ {
        StreamOp::Delta(DeltaTarget::FileChangeOutput)
    } else if method == "item/reasoning/textDelta"@ {
        StreamOp::Delta(DeltaTarget::ReasoningContent)
    } else if method == "item/reasoning/summaryTextDelta"@ {
        StreamOp::Delta(DeltaTarget::ReasoningSummary)
    } else if method == "turn/started"@ {
        StreamOp::TurnStarted
    } else if method == "turn/completed"@ {
        StreamOp::TurnCompleted
    } else if method == "thread/status/changed"@ {
        StreamOp::ThreadStatus
    } else if method == "thread/settings/updated"@ {
        StreamOp::ThreadSettings
    } else if method == "thread/goal/updated"@ {
        StreamOp::GoalUpdated
    } else if method == "thread/goal/cleared"@ {
        StreamOp::GoalCleared
    } else if method == "skills/changed"@ {
        StreamOp::SkillsChanged
    } else if method == "warning"@ || method == "guardianWarning"@ || method == "configWarning"@ {
        StreamOp::Notice(false)
    } else if method == "error"@ {
        StreamOp::Notice(true)
    } else if method == "mcpServer/oauthLogin/completed"@ {
        StreamOp::McpAuthCompleted
    } else if method == "web/requestResolved"@ {
        StreamOp::RequestResolved
    } else if has_id {
        StreamOp::ServerRequest
    } else {
        StreamOp::Ignored
    }
}

/// Each streaming-delta method of the app-server extends exactly the text it
/// names, whatever the message carries: an agent message's text, a plan's text,
/// a command's output, a file change's output, and an entry of a reasoning
/// item's content or summary. A method not listed here is no delta.
pub proof fn lemma_delta_methods(method: Seq<char>, has_id: bool)
    ensures
        (stream_op_spec(method, has_id) == StreamOp::Delta(DeltaTarget::AgentMessage)) <==> method
            == "item/agentMessage/delta"@,
        (stream_op_spec(method, has_id) == StreamOp::Delta(DeltaTarget::Plan)) <==> method
            == "item/plan/delta"@,
        (stream_op_spec(method, has_id) == StreamOp::Delta(DeltaTarget::CommandOutput)) <==> method
            == "item/commandExecution/outputDelta"@,
        (stream_op_spec(method, has_id) == StreamOp::Delta(DeltaTarget::FileChangeOutput)) <==> method
            == "item/fileChange/outputDelta"@,
        (stream_op_spec(method, has_id) == StreamOp::Delta(DeltaTarget::ReasoningContent)) <==> method
            == "item/reasoning/textDelta"@,
        (stream_op_spec(method, has_id) == StreamOp::Delta(DeltaTarget::ReasoningSummary)) <==> method
            == "item/reasoning/summaryTextDelta"@,
{
    reveal_strlit("item/started");
    reveal_strlit("item/completed");
    reveal_strlit("item/agentMessage/delta");
    reveal_strlit("item/plan/delta");
    reveal_strlit("item/commandExecution/outputDelta");
    reveal_strlit("item/fileChange/outputDelta");
    reveal_strlit("item/reasoning/textDelta");
    reveal_strlit("item/reasoning/summaryTextDelta");
    assert("item/started"@.len() == 12);
    assert("item/completed"@.len() == 14);
    assert("item/agentMessage/delta"@.len() == 23);
    assert("item/plan/delta"@.len() == 15);
    assert("item/commandExecution/outputDelta"@.len() == 33);
    assert("item/fileChange/outputDelta"@.len() == 27);
    assert("item/reasoning/textDelta"@.len() == 24);
    assert("item/reasoning/summaryTextDelta"@.len() == 31);
    assert("item/agentMessage/delta"@ != "item/started"@);
    assert("item/agentMessage/delta"@ != "item/completed"@);
    assert("item/plan/delta"@ != "item/started"@);
    assert("item/plan/delta"@ != "item/completed"@);
    assert("item/plan/delta"@ != "item/agentMessage/delta"@);
    assert("item/commandExecution/outputDelta"@ != "item/started"@);
    assert("item/commandExecution/outputDelta"@ != "item/completed"@);
    assert("item/commandExecution/outputDelta"@ != "item/agentMessage/delta"@);
    assert("item/commandExecution/outputDelta"@ != "item/plan/delta"@);
    assert("item/fileChange/outputDelta"@ != "item/started"@);
    assert("item/fileChange/outputDelta"@ != "item/completed"@);
    assert("item/fileChange/outputDelta"@ != "item/agentMessage/delta"@);
    assert("item/fileChange/outputDelta"@ != "item/plan/delta"@);
    assert("item/fileChange/outputDelta"@ != "item/commandExecution/outputDelta"@);
    assert("item/reasoning/textDelta"@ != "item/started"@);
    assert("item/reasoning/textDelta"@ != "item/completed"@);
    assert("item/reasoning/textDelta"@ != "item/agentMessage/delta"@);
    assert("item/reasoning/textDelta"@ != "item/plan/delta"@);
    assert("item/reasoning/textDelta"@ != "item/commandExecution/outputDelta"@);
    assert("item/reasoning/textDelta"@ != "item/fileChange/outputDelta"@);
    assert("item/reasoning/summaryTextDelta"@ != "item/started"@);
    assert("item/reasoning/summaryTextDelta"@ != "item/completed"@);
    assert("item/reasoning/summaryTextDelta"@ != "item/agentMessage/delta"@);
    assert("item/reasoning/summaryTextDelta"@ != "item/plan/delta"@);
    assert("item/reasoning/summaryTextDelta"@ != "item/commandExecution/outputDelta"@);
    assert("item/reasoning/summaryTextDelta"@ != "item/fileChange/outputDelta"@);
    assert("item/reasoning/summaryTextDelta"@ != "item/reasoning/textDelta"@);
}

/// A delta method names the type of the item it extends: it starts with
/// `item/`, that item type and `/`.
pub proof fn lemma_delta_names_its_item(method: Seq<char>, has_id: bool, target: DeltaTarget)
    requires
        stream_op_spec(method, has_id) == StreamOp::Delta(target),
    ensures
        ("item/"@ + delta_item_type(target) + "/"@).len() < method.len(),
        method.subrange(0, ("item/"@ + delta_item_type(target) + "/"@).len() as int) == "item/"@
            + delta_item_type(target) + "/"@,
{
    lemma_delta_methods(method, has_id);
    reveal_strlit("item/");
    reveal_strlit("/");
    reveal_strlit("agentMessage");
    reveal_strlit("plan");
    reveal_strlit("commandExecution");
    reveal_strlit("fileChange");
    reveal_strlit("reasoning");
    reveal_strlit("item/agentMessage/delta");
    reveal_strlit("item/plan/delta");
    reveal_strlit("item/commandExecution/outputDelta");
    reveal_strlit("item/fileChange/outputDelta");
    reveal_strlit("item/reasoning/textDelta");
    reveal_strlit("item/reasoning/summaryTextDelta");
    let prefix = "item/"@ + delta_item_type(target) + "/"@;
    assert(method.subrange(0, prefix.len() as int) =~= prefix);
}

/// Each notification method becomes the operation it names, whether or not the
/// message carries an id: item starts and completions, turn starts and
/// completions, thread status, settings and goal changes, skill changes,
/// warnings (`warning`, `guardianWarning`, `configWarning`) and errors, MCP
/// logins and resolved requests.
pub proof fn lemma_notification_ops(method: Seq<char>, has_id: bool)
    ensures
        (stream_op_spec(method, has_id) == StreamOp::ItemStarted) <==> (method == "item/started"@),
        (stream_op_spec(method, has_id) == StreamOp::ItemCompleted) <==> (method == "item/completed"@),
        (stream_op_spec(method, has_id) == StreamOp::TurnStarted) <==> (method == "turn/started"@),
        (stream_op_spec(method, has_id) == StreamOp::TurnCompleted) <==> (method == "turn/completed"@),
        (stream_op_spec(method, has_id) == StreamOp::ThreadStatus) <==> (method == "thread/status/changed"@),
        (stream_op_spec(method, has_id) == StreamOp::ThreadSettings) <==> (method == "thread/settings/updated"@),
        (stream_op_spec(method, has_id) == StreamOp::GoalUpdated) <==> (method == "thread/goal/updated"@),
        (stream_op_spec(method, has_id) == StreamOp::GoalCleared) <==> (method == "thread/goal/cleared"@),
        (stream_op_spec(method, has_id) == StreamOp::SkillsChanged) <==> (method == "skills/changed"@),
        (stream_op_spec(method, has_id) == StreamOp::Notice(false)) <==> (method == "warning"@ || method == "guardianWarning"@ || method == "configWarning"@),
        (stream_op_spec(method, has_id) == StreamOp::Notice(true)) <==> (method == "error"@),
        (stream_op_spec(method, has_id) == StreamOp::McpAuthCompleted) <==> (method == "mcpServer/oauthLogin/completed"@),
        (stream_op_spec(method, has_id) == StreamOp::RequestResolved) <==> (method == "web/requestResolved"@),
{
    reveal_strlit("item/started");
    reveal_strlit("item/completed");
    reveal_strlit("item/agentMessage/delta");
    reveal_strlit("item/plan/delta");
    reveal_strlit("item/commandExecution/outputDelta");
    reveal_strlit("item/fileChange/outputDelta");
    reveal_strlit("item/reasoning/textDelta");
    reveal_strlit("item/reasoning/summaryTextDelta");
    reveal_strlit("turn/started");
    reveal_strlit("turn/completed");
    reveal_strlit("thread/status/changed");
    reveal_strlit("thread/settings/updated");
    reveal_strlit("thread/goal/updated");
    reveal_strlit("thread/goal/cleared");
    reveal_strlit("skills/changed");
    reveal_strlit("warning");
    reveal_strlit("guardianWarning");
    reveal_strlit("configWarning");
    reveal_strlit("error");
    reveal_strlit("mcpServer/oauthLogin/completed");
    reveal_strlit("web/requestResolved");
    assert("item/started"@.len() == 12);
    assert("item/completed"@.len() == 14);
    assert("item/agentMessage/delta"@.len() == 23);
    assert("item/plan/delta"@.len() == 15);
    assert("item/commandExecution/outputDelta"@.len() == 33);
    assert("item/fileChange/outputDelta"@.len() == 27);
    assert("item/reasoning/textDelta"@.len() == 24);
    assert("item/reasoning/summaryTextDelta"@.len() == 31);
    assert("turn/started"@.len() == 12);
    assert("turn/completed"@.len() == 14);
    assert("thread/status/changed"@.len() == 21);
    assert("thread/settings/updated"@.len() == 23);
    assert("thread/goal/updated"@.len() == 19);
    assert("thread/goal/cleared"@.len() == 19);
    assert("skills/changed"@.len() == 14);
    assert("warning"@.len() == 7);
    assert("guardianWarning"@.len() == 15);
    assert("configWarning"@.len() == 13);
    assert("error"@.len() == 5);
    assert("mcpServer/oauthLogin/completed"@.len() == 30);
    assert("web/requestResolved"@.len() == 19);
    assert("item/completed"@ != "item/started"@);
    assert("item/agentMessage/delta"@ != "item/started"@);
    assert("item/agentMessage/delta"@ != "item/completed"@);
    assert("item/plan/delta"@ != "item/started"@);
    assert("item/plan/delta"@ != "item/completed"@);
    assert("item/plan/delta"@ != "item/agentMessage/delta"@);
    assert("item/commandExecution/outputDelta"@ != "item/started"@);
    assert("item/commandExecution/outputDelta"@ != "item/completed"@);
    assert("item/commandExecution/outputDelta"@ != "item/agentMessage/delta"@);
    assert("item/commandExecution/outputDelta"@ != "item/plan/delta"@);
    assert("item/fileChange/outputDelta"@ != "item/started"@);
    assert("item/fileChange/outputDelta"@ != "item/completed"@);
    assert("item/fileChange/outputDelta"@ != "item/agentMessage/delta"@);
    assert("item/fileChange/outputDelta"@ != "item/plan/delta"@);
    assert("item/fileChange/outputDelta"@ != "item/commandExecution/outputDelta"@);
    assert("item/reasoning/textDelta"@ != "item/started"@);
    assert("item/reasoning/textDelta"@ != "item/completed"@);
    assert("item/reasoning/textDelta"@ != "item/agentMessage/delta"@);
    assert("item/reasoning/textDelta"@ != "item/plan/delta"@);
    assert("item/reasoning/textDelta"@ != "item/commandExecution/outputDelta"@);
    assert("item/reasoning/textDelta"@ != "item/fileChange/outputDelta"@);
    assert("item/reasoning/summaryTextDelta"@ != "item/started"@);
    assert("item/reasoning/summaryTextDelta"@ != "item/completed"@);
    assert("item/reasoning/summaryTextDelta"@ != "item/agentMessage/delta"@);
    assert("item/reasoning/summaryTextDelta"@ != "item/plan/delta"@);
    assert("item/reasoning/summaryTextDelta"@ != "item/commandExecution/outputDelta"@);
    assert("item/reasoning/summaryTextDelta"@ != "item/fileChange/outputDelta"@);
    assert("item/reasoning/summaryTextDelta"@ != "item/reasoning/textDelta"@);
    assert("turn/started"@ != "item/started"@) by {
        assert("turn/started"@[0] != "item/started"@[0]);
    }
    assert("turn/started"@ != "item/completed"@);
    assert("turn/started"@ != "item/agentMessage/delta"@);
    assert("turn/started"@ != "item/plan/delta"@);
    assert("turn/started"@ != "item/commandExecution/outputDelta"@);
    assert("turn/started"@ != "item/fileChange/outputDelta"@);
    assert("turn/started"@ != "item/reasoning/textDelta"@);
    assert("turn/started"@ != "item/reasoning/summaryTextDelta"@);
    assert("turn/completed"@ != "item/started"@);
    assert("turn/completed"@ != "item/completed"@) by {
        assert("turn/completed"@[0] != "item/completed"@[0]);
    }
    assert("turn/completed"@ != "item/agentMessage/delta"@);
    assert("turn/completed"@ != "item/plan/delta"@);
    assert("turn/completed"@ != "item/commandExecution/outputDelta"@);
    assert("turn/completed"@ != "item/fileChange/outputDelta"@);
    assert("turn/completed"@ != "item/reasoning/textDelta"@);
    assert("turn/completed"@ != "item/reasoning/summaryTextDelta"@);
    assert("turn/completed"@ != "turn/started"@);
    assert("thread/status/changed"@ != "item/started"@);
    assert("thread/status/changed"@ != "item/completed"@);
    assert("thread/status/changed"@ != "item/agentMessage/delta"@);
    assert("thread/status/changed"@ != "item/plan/delta"@);
    assert("thread/status/changed"@ != "item/commandExecution/outputDelta"@);
    assert("thread/status/changed"@ != "item/fileChange/outputDelta"@);
    assert("thread/status/changed"@ != "item/reasoning/textDelta"@);
    assert("thread/status/changed"@ != "item/reasoning/summaryTextDelta"@);
    assert("thread/status/changed"@ != "turn/started"@);
    assert("thread/status/changed"@ != "turn/completed"@);
    assert("thread/settings/updated"@ != "item/started"@);
    assert("thread/settings/updated"@ != "item/completed"@);
    assert("thread/settings/updated"@ != "item/agentMessage/delta"@) by {
        assert("thread/settings/updated"@[0] != "item/agentMessage/delta"@[0]);
    }
    assert("thread/settings/updated"@ != "item/plan/delta"@);
    assert("thread/settings/updated"@ != "item/commandExecution/outputDelta"@);
    assert("thread/settings/updated"@ != "item/fileChange/outputDelta"@);
    assert("thread/settings/updated"@ != "item/reasoning/textDelta"@);
    assert("thread/settings/updated"@ != "item/reasoning/summaryTextDelta"@);
    assert("thread/settings/updated"@ != "turn/started"@);
    assert("thread/settings/updated"@ != "turn/completed"@);
    assert("thread/settings/updated"@ != "thread/status/changed"@);
    assert("thread/goal/updated"@ != "item/started"@);
    assert("thread/goal/updated"@ != "item/completed"@);
    assert("thread/goal/updated"@ != "item/agentMessage/delta"@);
    assert("thread/goal/updated"@ != "item/plan/delta"@);
    assert("thread/goal/updated"@ != "item/commandExecution/outputDelta"@);
    assert("thread/goal/updated"@ != "item/fileChange/outputDelta"@);
    assert("thread/goal/updated"@ != "item/reasoning/textDelta"@);
    assert("thread/goal/updated"@ != "item/reasoning/summaryTextDelta"@);
    assert("thread/goal/updated"@ != "turn/started"@);
    assert("thread/goal/updated"@ != "turn/completed"@);
    assert("thread/goal/updated"@ != "thread/status/changed"@);
    assert("thread/goal/updated"@ != "thread/settings/updated"@);
    assert("thread/goal/cleared"@ != "item/started"@);
    assert("thread/goal/cleared"@ != "item/completed"@);
    assert("thread/goal/cleared"@ != "item/agentMessage/delta"@);
    assert("thread/goal/cleared"@ != "item/plan/delta"@);
    assert("thread/goal/cleared"@ != "item/commandExecution/outputDelta"@);
    assert("thread/goal/cleared"@ != "item/fileChange/outputDelta"@);
    assert("thread/goal/cleared"@ != "item/reasoning/textDelta"@);
    assert("thread/goal/cleared"@ != "item/reasoning/summaryTextDelta"@);
    assert("thread/goal/cleared"@ != "turn/started"@);
    assert("thread/goal/cleared"@ != "turn/completed"@);
    assert("thread/goal/cleared"@ != "thread/status/changed"@);
    assert("thread/goal/cleared"@ != "thread/settings/updated"@);
    assert("thread/goal/cleared"@ != "thread/goal/updated"@) by {
        assert("thread/goal/cleared"@[12] != "thread/goal/updated"@[12]);
    }
    assert("skills/changed"@ != "item/started"@);
    assert("skills/changed"@ != "item/completed"@) by {
        assert("skills/changed"@[0] != "item/completed"@[0]);
    }
    assert("skills/changed"@ != "item/agentMessage/delta"@);
    assert("skills/changed"@ != "item/plan/delta"@);
    assert("skills/changed"@ != "item/commandExecution/outputDelta"@);
    assert("skills/changed"@ != "item/fileChange/outputDelta"@);
    assert("skills/changed"@ != "item/reasoning/textDelta"@);
    assert("skills/changed"@ != "item/reasoning/summaryTextDelta"@);
    assert("skills/changed"@ != "turn/started"@);
    assert("skills/changed"@ != "turn/completed"@) by {
        assert("skills/changed"@[0] != "turn/completed"@[0]);
    }
    assert("skills/changed"@ != "thread/status/changed"@);
    assert("skills/changed"@ != "thread/settings/updated"@);
    assert("skills/changed"@ != "thread/goal/updated"@);
    assert("skills/changed"@ != "thread/goal/cleared"@);
    assert("warning"@ != "item/started"@);
    assert("warning"@ != "item/completed"@);
    assert("warning"@ != "item/agentMessage/delta"@);
    assert("warning"@ != "item/plan/delta"@);
    assert("warning"@ != "item/commandExecution/outputDelta"@);
    assert("warning"@ != "item/fileChange/outputDelta"@);
    assert("warning"@ != "item/reasoning/textDelta"@);
    assert("warning"@ != "item/reasoning/summaryTextDelta"@);
    assert("warning"@ != "turn/started"@);
    assert("warning"@ != "turn/completed"@);
    assert("warning"@ != "thread/status/changed"@);
    assert("warning"@ != "thread/settings/updated"@);
    assert("warning"@ != "thread/goal/updated"@);
    assert("warning"@ != "thread/goal/cleared"@);
    assert("warning"@ != "skills/changed"@);
    assert("guardianWarning"@ != "item/started"@);
    assert("guardianWarning"@ != "item/completed"@);
    assert("guardianWarning"@ != "item/agentMessage/delta"@);
    assert("guardianWarning"@ != "item/plan/delta"@) by {
        assert("guardianWarning"@[0] != "item/plan/delta"@[0]);
    }
    assert("guardianWarning"@ != "item/commandExecution/outputDelta"@);
    assert("guardianWarning"@ != "item/fileChange/outputDelta"@);
    assert("guardianWarning"@ != "item/reasoning/textDelta"@);
    assert("guardianWarning"@ != "item/reasoning/summaryTextDelta"@);
    assert("guardianWarning"@ != "turn/started"@);
    assert("guardianWarning"@ != "turn/completed"@);
    assert("guardianWarning"@ != "thread/status/changed"@);
    assert("guardianWarning"@ != "thread/settings/updated"@);
    assert("guardianWarning"@ != "thread/goal/updated"@);
    assert("guardianWarning"@ != "thread/goal/cleared"@);
    assert("guardianWarning"@ != "skills/changed"@);
    assert("guardianWarning"@ != "warning"@);
    assert("configWarning"@ != "item/started"@);
    assert("configWarning"@ != "item/completed"@);
    assert("configWarning"@ != "item/agentMessage/delta"@);
    assert("configWarning"@ != "item/plan/delta"@);
    assert("configWarning"@ != "item/commandExecution/outputDelta"@);
    assert("configWarning"@ != "item/fileChange/outputDelta"@);
    assert("configWarning"@ != "item/reasoning/textDelta"@);
    assert("configWarning"@ != "item/reasoning/summaryTextDelta"@);
    assert("configWarning"@ != "turn/started"@);
    assert("configWarning"@ != "turn/completed"@);
    assert("configWarning"@ != "thread/status/changed"@);
    assert("configWarning"@ != "thread/settings/updated"@);
    assert("configWarning"@ != "thread/goal/updated"@);
    assert("configWarning"@ != "thread/goal/cleared"@);
    assert("configWarning"@ != "skills/changed"@);
    assert("configWarning"@ != "warning"@);
    assert("configWarning"@ != "guardianWarning"@);
    assert("error"@ != "item/started"@);
    assert("error"@ != "item/completed"@);
    assert("error"@ != "item/agentMessage/delta"@);
    assert("error"@ != "item/plan/delta"@);
    assert("error"@ != "item/commandExecution/outputDelta"@);
    assert("error"@ != "item/fileChange/outputDelta"@);
    assert("error"@ != "item/reasoning/textDelta"@);
    assert("error"@ != "item/reasoning/summaryTextDelta"@);
    assert("error"@ != "turn/started"@);
    assert("error"@ != "turn/completed"@);
    assert("error"@ != "thread/status/changed"@);
    assert("error"@ != "thread/settings/updated"@);
    assert("error"@ != "thread/goal/updated"@);
    assert("error"@ != "thread/goal/cleared"@);
    assert("error"@ != "skills/changed"@);
    assert("error"@ != "warning"@);
    assert("error"@ != "guardianWarning"@);
    assert("error"@ != "configWarning"@);
    assert("mcpServer/oauthLogin/completed"@ != "item/started"@);
    assert("mcpServer/oauthLogin/completed"@ != "item/completed"@);
    assert("mcpServer/oauthLogin/completed"@ != "item/agentMessage/delta"@);
    assert("mcpServer/oauthLogin/completed"@ != "item/plan/delta"@);
    assert("mcpServer/oauthLogin/completed"@ != "item/commandExecution/outputDelta"@);
    assert("mcpServer/oauthLogin/completed"@ != "item/fileChange/outputDelta"@);
    assert("mcpServer/oauthLogin/completed"@ != "item/reasoning/textDelta"@);
    assert("mcpServer/oauthLogin/completed"@ != "item/reasoning/summaryTextDelta"@);
    assert("mcpServer/oauthLogin/completed"@ != "turn/started"@);
    assert("mcpServer/oauthLogin/completed"@ != "turn/completed"@);
    assert("mcpServer/oauthLogin/completed"@ != "thread/status/changed"@);
    assert("mcpServer/oauthLogin/completed"@ != "thread/settings/updated"@);
    assert("mcpServer/oauthLogin/completed"@ != "thread/goal/updated"@);
    assert("mcpServer/oauthLogin/completed"@ != "thread/goal/cleared"@);
    assert("mcpServer/oauthLogin/completed"@ != "skills/changed"@);
    assert("mcpServer/oauthLogin/completed"@ != "warning"@);
    assert("mcpServer/oauthLogin/completed"@ != "guardianWarning"@);
    assert("mcpServer/oauthLogin/completed"@ != "configWarning"@);
    assert("mcpServer/oauthLogin/completed"@ != "error"@);
    assert("web/requestResolved"@ != "item/started"@);
    assert("web/requestResolved"@ != "item/completed"@);
    assert("web/requestResolved"@ != "item/agentMessage/delta"@);
    assert("web/requestResolved"@ != "item/plan/delta"@);
    assert("web/requestResolved"@ != "item/commandExecution/outputDelta"@);
    assert("web/requestResolved"@ != "item/fileChange/outputDelta"@);
    assert("web/requestResolved"@ != "item/reasoning/textDelta"@);
    assert("web/requestResolved"@ != "item/reasoning/summaryTextDelta"@);
    assert("web/requestResolved"@ != "turn/started"@);
    assert("web/requestResolved"@ != "turn/completed"@);
    assert("web/requestResolved"@ != "thread/status/changed"@);
    assert("web/requestResolved"@ != "thread/settings/updated"@);
    assert("web/requestResolved"@ != "thread/goal/updated"@) by {
        assert("web/requestResolved"@[0] != "thread/goal/updated"@[0]);
    }
    assert("web/requestResolved"@ != "thread/goal/cleared"@) by {
        assert("web/requestResolved"@[0] != "thread/goal/cleared"@[0]);
    }
    assert("web/requestResolved"@ != "skills/changed"@);
    assert("web/requestResolved"@ != "warning"@);
    assert("web/requestResolved"@ != "guardianWarning"@);
    assert("web/requestResolved"@ != "configWarning"@);
    assert("web/requestResolved"@ != "error"@);
    assert("web/requestResolved"@ != "mcpServer/oauthLogin/completed"@);
}

/// The id of a message matters only for a method the stream does not know: such
/// a message is a request awaiting the user when it carries an id and is not
/// shown otherwise; every known method gives the same operation either way.
pub proof fn lemma_id_only_decides_unknown_methods(method: Seq<char>)
    ensures
        stream_op_spec(method, true) == (if stream_op_spec(method, false) == StreamOp::Ignored {
            StreamOp::ServerRequest
        } else {
            stream_op_spec(method, false)
        }),
        stream_op_spec(method, false) != StreamOp::ServerRequest,
        stream_op_spec(method, true) != StreamOp::Ignored,
{
}

/// Classifies an app-server message for the browser's event stream.
pub fn stream_op(method: &str, has_id: bool) -> (op: StreamOp)
    ensures
        op == stream_op_spec(method@, has_id),
{
    if str_eq(method, "item/started") {
        StreamOp::ItemStarted
    } else if str_eq(method, "item/completed") {
        StreamOp::ItemCompleted
    } else if str_eq(method, "item/agentMessage/delta") {
        StreamOp::Delta(DeltaTarget::AgentMessage)
    } else if str_eq(method, "item/plan/delta") {
        StreamOp::Delta(DeltaTarget::Plan)
    } else if str_eq(method, "item/commandExecution/outputDelta") {
        StreamOp::Delta(DeltaTarget::CommandOutput)
    } else if str_eq(method, "item/fileChange/outputDelta") {
        StreamOp::Delta(DeltaTarget::FileChangeOutput)
    } else if str_eq(method, "item/reasoning/textDelta") {
        StreamOp::Delta(DeltaTarget::ReasoningContent)
    } else if str_eq(method, "item/reasoning/summaryTextDelta") {
        StreamOp::Delta(DeltaTarget::ReasoningSummary)
    } else if str_eq(method, "turn/started") {
        StreamOp::TurnStarted
    } else if str_eq(method, "turn/completed") {
        StreamOp::TurnCompleted
    } else if str_eq(method, "thread/status/changed") {
        StreamOp::ThreadStatus
    } else if str_eq(method, "thread/settings/updated") {
        StreamOp::ThreadSettings
    } else if str_eq(method, "thread/goal/updated") {
        StreamOp::GoalUpdated
    } else if str_eq(method, "thread/goal/cleared") {
        StreamOp::GoalCleared
    } else if str_eq(method, "skills/changed") {
        StreamOp::SkillsChanged
    } else if str_eq(method, "warning") || str_eq(method, "guardianWarning") || str_eq(
        method,
        "configWarning",
    ) {
        StreamOp::Notice(false)
    } else if str_eq(method, "error") {
        StreamOp::Notice(true)
    } else if str_eq(method, "mcpServer/oauthLogin/completed") {
        StreamOp::McpAuthCompleted
    } else if str_eq(method, "web/requestResolved") {
        StreamOp::RequestResolved
    } else if has_id {
        StreamOp::ServerRequest
    } else {
        StreamOp::Ignored
    }
}

/// The status shown for a completed turn: the one reported, else `completed`.
pub fn completed_turn_status(status: Option<&str>) -> (s: String)
    ensures
        s@ == (match opt_str(status) {
            Some(v) => v,
            None => "completed"@,
        }),
{
    match status {
        Some(v) => String::from_str(v),
        None => String::from_str("completed"),
    }
}

/// The message of a notice: the `message` field when the notification has one
/// (its text, if it is text), else the `error` field's text, else a generic line.
pub fn notice_message(has_message_field: bool, message: Option<&str>, error: Option<&str>) -> (m: String)
    ensures
        m@ == (match opt_str(if has_message_field {
            message
        } else {
            error
        }) {
            Some(v) => v,
            None => "Codex reported a problem"@,
        }),
{
    let chosen = if has_message_field {
        message
    } else {
        error
    };
    match chosen {
        Some(v) => String::from_str(v),
        None => String::from_str("Codex reported a problem"),
    }
}

/// The entries of a reasoning field after `delta` arrives for entry `index`:
/// the list is resized to `index + 1` entries (cut or padded with empty text),
/// and that entry gets `delta` appended under the streaming cap.
pub open spec fn appended_entries_spec(entries: Seq<Seq<char>>, index: int, delta: Seq<char>, out: Seq<Seq<char>>) -> bool {
    let previous = if index < entries.len() {
        entries[index]
    } else {
        Seq::<char>::empty()
    };
    &&& out.len() == index + 1
    &&& forall|i: int| 0 <= i < index ==> #[trigger] out[i] == if i < entries.len() {
        entries[i]
    } else {
        Seq::<char>::empty()
    }
    &&& truncated_append_spec(previous, delta, out[index])
}

/// Streams `delta` into entry `index` of a reasoning field.
pub fn append_entry(entries: &Vec<String>, index: usize, delta: &str) -> (out: Vec<String>)
    requires
        index < usize::MAX,
    ensures
        appended_entries_spec(entries@.map_values(|e: String| e@), index as int, delta@, out@.map_values(|e: String| e@)),
{
    let ghost views = entries@.map_values(|e: String| e@);
    let mut out: Vec<String> = Vec::new();
    let mut i: usize = 0;
    while i < index
        invariant
            views == entries@.map_values(|e: String| e@),
            i <= index,
            out@.len() == i,
            forall|j: int| 0 <= j < i ==> #[trigger] out@[j]@ == if j < views.len() {
                views[j]
            } else {
                Seq::<char>::empty()
            },
        decreases index - i,
    {
        if i < entries.len() {
            out.push(entries[i].clone());
        } else {
            out.push(String::new());
        }
        i = i + 1;
    }
    let appended = if index < entries.len() {
        truncated_append(entries[index].as_str(), delta)
    } else {
        truncated_append("", delta)
    };
    proof {
        if index >= entries.len() {
            assert(""@ =~= Seq::<char>::empty()) by {
                reveal_strlit("");
            }
        }
    }
    out.push(appended);
    proof {
        let outv = out@.map_values(|e: String| e@);
        assert forall|j: int| 0 <= j < index implies #[trigger] outv[j] == if j < views.len() {
            views[j]
        } else {
            Seq::<char>::empty()
        } by {
            assert(outv[j] == out@[j]@);
        }
    }
    out
}

} // verus!
