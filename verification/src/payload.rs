//! Why a signature over the encoding of a batch is a signature over the
//! batch: the encoding tells any two batches apart.
//!
//! Each part of the encoding says where it ends, by its fixed length, by a
//! count in front of it or by a tag. So what follows a part can never be
//! taken for the part itself, and two batches with the same bytes are the
//! same batch.

use crate::event::enc_bytes;
use crate::event::enc_event;
use crate::event::enc_events;
use crate::event::enc_i32;
use crate::event::enc_i64;
use crate::event::enc_len;
use crate::event::enc_output;
use crate::event::enc_record_id;
use crate::event::enc_text;
use crate::event::authentic;
use crate::event::event_views;
use crate::event::signing_payload;
use crate::event::ExecutorEventCollection;
use crate::event::EventView;
use crate::event::OutputView;
use crate::codec::hex_bytes;
use crate::keys::signature_accepted;
use crate::keys::PublicKey;
use crate::keys::SignatureScheme;
use crate::security::SecurityLevel;
use vstd::bytes::lemma_auto_spec_u32_to_from_le_bytes;
use vstd::bytes::lemma_auto_spec_u64_to_from_le_bytes;
use vstd::bytes::spec_u32_from_le_bytes;
use vstd::bytes::spec_u32_to_le_bytes;
use vstd::bytes::spec_u64_from_le_bytes;
use vstd::bytes::spec_u64_to_le_bytes;
use vstd::prelude::*;
use vstd::utf8::encode_utf8;
use vstd::utf8::encode_utf8_decode_utf8;

verus! {

/// A count that eight bytes can hold, as the length of anything in memory is.
pub open spec fn countable(n: nat) -> bool {
    n <= u64::MAX
}

/// An output whose byte strings and text have lengths that can be counted.
pub open spec fn output_fits(output: Option<OutputView>) -> bool {
    match output {
        None => true,
        Some(OutputView::Process { status, stdout, stderr }) => countable(stdout.len())
            && countable(stderr.len()),
        Some(OutputView::Exception { message }) => countable(encode_utf8(message).len()),
    }
}

/// An event whose texts and byte strings have lengths that can be counted.
pub open spec fn event_fits(event: EventView) -> bool {
    &&& countable(encode_utf8(event.executor_processor_name).len())
    &&& countable(encode_utf8(event.executor_processor_host).len())
    &&& output_fits(event.output)
}

/// A list of events that can be counted, each with lengths that can be counted.
pub open spec fn events_fit(events: Seq<EventView>) -> bool {
    &&& countable(events.len())
    &&& forall|i: int| 0 <= i < events.len() ==> event_fits(#[trigger] events[i])
}

proof fn lemma_split<T>(a: Seq<T>, r: Seq<T>, b: Seq<T>, s: Seq<T>)
    requires
        a.len() == b.len(),
        a + r == b + s,
    ensures
        a == b,
        r == s,
{
    assert(a =~= (a + r).subrange(0, a.len() as int));
    assert(b =~= (b + s).subrange(0, b.len() as int));
    assert(r =~= (a + r).subrange(a.len() as int, (a + r).len() as int));
    assert(s =~= (b + s).subrange(b.len() as int, (b + s).len() as int));
}

proof fn lemma_u64_apart(x: u64, r: Seq<u8>, y: u64, s: Seq<u8>)
    requires
        spec_u64_to_le_bytes(x) + r == spec_u64_to_le_bytes(y) + s,
    ensures
        x == y,
        r == s,
{
    lemma_auto_spec_u64_to_from_le_bytes();
    lemma_split(spec_u64_to_le_bytes(x), r, spec_u64_to_le_bytes(y), s);
    assert(spec_u64_from_le_bytes(spec_u64_to_le_bytes(x)) == x);
    assert(spec_u64_from_le_bytes(spec_u64_to_le_bytes(y)) == y);
}

proof fn lemma_u32_apart(x: u32, r: Seq<u8>, y: u32, s: Seq<u8>)
    requires
        spec_u32_to_le_bytes(x) + r == spec_u32_to_le_bytes(y) + s,
    ensures
        x == y,
        r == s,
{
    lemma_auto_spec_u32_to_from_le_bytes();
    lemma_split(spec_u32_to_le_bytes(x), r, spec_u32_to_le_bytes(y), s);
    assert(spec_u32_from_le_bytes(spec_u32_to_le_bytes(x)) == x);
    assert(spec_u32_from_le_bytes(spec_u32_to_le_bytes(y)) == y);
}

proof fn lemma_i64_apart(x: i64, r: Seq<u8>, y: i64, s: Seq<u8>)
    requires
        enc_i64(x) + r == enc_i64(y) + s,
    ensures
        x == y,
        r == s,
{
    lemma_u64_apart(
        (x + 0x8000_0000_0000_0000) as u64,
        r,
        (y + 0x8000_0000_0000_0000) as u64,
        s,
    );
}

proof fn lemma_i32_apart(x: i32, r: Seq<u8>, y: i32, s: Seq<u8>)
    requires
        enc_i32(x) + r == enc_i32(y) + s,
    ensures
        x == y,
        r == s,
{
    lemma_u32_apart((x + 0x8000_0000) as u32, r, (y + 0x8000_0000) as u32, s);
}

proof fn lemma_len_apart(m: nat, r: Seq<u8>, n: nat, s: Seq<u8>)
    requires
        countable(m),
        countable(n),
        enc_len(m) + r == enc_len(n) + s,
    ensures
        m == n,
        r == s,
{
    lemma_u64_apart(m as u64, r, n as u64, s);
}

proof fn lemma_bytes_apart(a: Seq<u8>, r: Seq<u8>, b: Seq<u8>, s: Seq<u8>)
    requires
        countable(a.len()),
        countable(b.len()),
        enc_bytes(a) + r == enc_bytes(b) + s,
    ensures
        a == b,
        r == s,
{
    assert(enc_bytes(a) + r =~= enc_len(a.len()) + (a + r));
    assert(enc_bytes(b) + s =~= enc_len(b.len()) + (b + s));
    lemma_len_apart(a.len(), a + r, b.len(), b + s);
    lemma_split(a, r, b, s);
}

proof fn lemma_text_apart(a: Seq<char>, r: Seq<u8>, b: Seq<char>, s: Seq<u8>)
    requires
        countable(encode_utf8(a).len()),
        countable(encode_utf8(b).len()),
        enc_text(a) + r == enc_text(b) + s,
    ensures
        a == b,
        r == s,
{
    lemma_bytes_apart(encode_utf8(a), r, encode_utf8(b), s);
    encode_utf8_decode_utf8(a);
    encode_utf8_decode_utf8(b);
}

proof fn lemma_tag_apart(t: u8, a: Seq<u8>, u: u8, b: Seq<u8>)
    requires
        seq![t] + a == seq![u] + b,
    ensures
        t == u,
        a == b,
{
    lemma_split(seq![t], a, seq![u], b);
    assert(seq![t][0] == seq![u][0]);
}

proof fn lemma_record_id_apart(a: Option<i64>, r: Seq<u8>, b: Option<i64>, s: Seq<u8>)
    requires
        enc_record_id(a) + r == enc_record_id(b) + s,
    ensures
        a == b,
        r == s,
{
    let rest_a = match a {
        None => r,
        Some(x) => enc_i64(x) + r,
    };
    let rest_b = match b {
        None => s,
        Some(y) => enc_i64(y) + s,
    };
    let tag_a: u8 = if a is Some {
        1
    } else {
        0
    };
    let tag_b: u8 = if b is Some {
        1
    } else {
        0
    };
    assert(enc_record_id(a) + r =~= seq![tag_a] + rest_a);
    assert(enc_record_id(b) + s =~= seq![tag_b] + rest_b);
    lemma_tag_apart(tag_a, rest_a, tag_b, rest_b);
    if a is Some {
        lemma_i64_apart(a.unwrap(), r, b.unwrap(), s);
    }
}

/// The tag byte of an output.
spec fn output_tag(output: Option<OutputView>) -> u8 {
    match output {
        None => 0,
        Some(OutputView::Process { status, stdout, stderr }) => 1,
        Some(OutputView::Exception { message }) => 2,
    }
}

/// What follows the tag byte of an output.
spec fn output_body(output: Option<OutputView>) -> Seq<u8> {
    match output {
        None => Seq::empty(),
        Some(OutputView::Process { status, stdout, stderr }) => enc_i32(status) + enc_bytes(stdout)
            + enc_bytes(stderr),
        Some(OutputView::Exception { message }) => enc_text(message),
    }
}

proof fn lemma_output_apart(
    a: Option<OutputView>,
    r: Seq<u8>,
    b: Option<OutputView>,
    s: Seq<u8>,
)
    requires
        output_fits(a),
        output_fits(b),
        enc_output(a) + r == enc_output(b) + s,
    ensures
        a == b,
        r == s,
{
    assert(enc_output(a) + r =~= seq![output_tag(a)] + (output_body(a) + r));
    assert(enc_output(b) + s =~= seq![output_tag(b)] + (output_body(b) + s));
    lemma_tag_apart(output_tag(a), output_body(a) + r, output_tag(b), output_body(b) + s);
    match a {
        None => {
            assert(output_body(a) + r =~= r);
            assert(output_body(b) + s =~= s);
        },
        Some(OutputView::Process { status, stdout, stderr }) => {
            let other = b.unwrap();
            let status_b = other->status;
            let stdout_b = other->stdout;
            let stderr_b = other->stderr;
            assert(output_body(a) + r =~= enc_i32(status) + (enc_bytes(stdout) + (enc_bytes(stderr)
                + r)));
            assert(output_body(b) + s =~= enc_i32(status_b) + (enc_bytes(stdout_b) + (enc_bytes(
                stderr_b,
            ) + s)));
            lemma_i32_apart(
                status,
                enc_bytes(stdout) + (enc_bytes(stderr) + r),
                status_b,
                enc_bytes(stdout_b) + (enc_bytes(stderr_b) + s),
            );
            lemma_bytes_apart(stdout, enc_bytes(stderr) + r, stdout_b, enc_bytes(stderr_b) + s);
            lemma_bytes_apart(stderr, r, stderr_b, s);
        },
        Some(OutputView::Exception { message }) => {
            let other = b.unwrap();
            lemma_text_apart(message, r, other->message, s);
        },
    }
}

proof fn lemma_regroup<T>(x: Seq<T>, y: Seq<T>, z: Seq<T>)
    ensures
        (x + y) + z == x + (y + z),
{
    assert((x + y) + z =~= x + (y + z));
}

/// An event followed by more bytes, as its first field followed by the rest.
proof fn lemma_event_unfolds(e: EventView, r: Seq<u8>)
    ensures
        enc_event(e) + r == enc_i64(e.task_id) + (enc_record_id(e.record_id) + (enc_i64(
            e.event_type,
        ) + (enc_i64(e.executor_processor_id) + (enc_text(e.executor_processor_name) + (enc_text(
            e.executor_processor_host,
        ) + (enc_output(e.output) + r)))))),
{
    let task = enc_i64(e.task_id);
    let record = enc_record_id(e.record_id);
    let kind = enc_i64(e.event_type);
    let processor = enc_i64(e.executor_processor_id);
    let name = enc_text(e.executor_processor_name);
    let host = enc_text(e.executor_processor_host);
    let output = enc_output(e.output);
    assert(enc_event(e) == task + record + kind + processor + name + host + output);
    lemma_regroup(task + record + kind + processor + name + host, output, r);
    lemma_regroup(task + record + kind + processor + name, host, output + r);
    lemma_regroup(task + record + kind + processor, name, host + (output + r));
    lemma_regroup(task + record + kind, processor, name + (host + (output + r)));
    lemma_regroup(task + record, kind, processor + (name + (host + (output + r))));
    lemma_regroup(task, record, kind + (processor + (name + (host + (output + r)))));
}

proof fn lemma_event_apart(a: EventView, r: Seq<u8>, b: EventView, s: Seq<u8>)
    requires
        event_fits(a),
        event_fits(b),
        enc_event(a) + r == enc_event(b) + s,
    ensures
        a == b,
        r == s,
{
    let a_output_on = enc_output(a.output) + r;
    let a_host_on = enc_text(a.executor_processor_host) + a_output_on;
    let a_name_on = enc_text(a.executor_processor_name) + a_host_on;
    let a_processor_on = enc_i64(a.executor_processor_id) + a_name_on;
    let a_kind_on = enc_i64(a.event_type) + a_processor_on;
    let a_record_on = enc_record_id(a.record_id) + a_kind_on;
    let b_output_on = enc_output(b.output) + s;
    let b_host_on = enc_text(b.executor_processor_host) + b_output_on;
    let b_name_on = enc_text(b.executor_processor_name) + b_host_on;
    let b_processor_on = enc_i64(b.executor_processor_id) + b_name_on;
    let b_kind_on = enc_i64(b.event_type) + b_processor_on;
    let b_record_on = enc_record_id(b.record_id) + b_kind_on;
    lemma_event_unfolds(a, r);
    lemma_event_unfolds(b, s);
    lemma_i64_apart(a.task_id, a_record_on, b.task_id, b_record_on);
    lemma_record_id_apart(a.record_id, a_kind_on, b.record_id, b_kind_on);
    lemma_i64_apart(a.event_type, a_processor_on, b.event_type, b_processor_on);
    lemma_i64_apart(a.executor_processor_id, a_name_on, b.executor_processor_id, b_name_on);
    lemma_text_apart(a.executor_processor_name, a_host_on, b.executor_processor_name, b_host_on);
    lemma_text_apart(a.executor_processor_host, a_output_on, b.executor_processor_host, b_output_on);
    lemma_output_apart(a.output, r, b.output, s);
}

proof fn lemma_events_from_the_front(events: Seq<EventView>)
    requires
        events.len() > 0,
    ensures
        enc_events(events) == enc_event(events[0]) + enc_events(events.drop_first()),
    decreases events.len(),
{
    if events.len() == 1 {
        assert(events.drop_last() =~= Seq::<EventView>::empty());
        assert(events.drop_first() =~= Seq::<EventView>::empty());
        assert(enc_events(events) =~= enc_event(events[0]) + enc_events(events.drop_first()));
    } else {
        let init = events.drop_last();
        lemma_events_from_the_front(init);
        assert(init.drop_first() =~= events.drop_first().drop_last());
        assert(events.drop_first().last() == events.last());
        assert(init[0] == events[0]);
        assert(enc_events(events) =~= enc_event(events[0]) + enc_events(events.drop_first()));
    }
}

proof fn lemma_events_apart(a: Seq<EventView>, r: Seq<u8>, b: Seq<EventView>, s: Seq<u8>)
    requires
        a.len() == b.len(),
        forall|i: int| 0 <= i < a.len() ==> event_fits(#[trigger] a[i]),
        forall|i: int| 0 <= i < b.len() ==> event_fits(#[trigger] b[i]),
        enc_events(a) + r == enc_events(b) + s,
    ensures
        a == b,
        r == s,
    decreases a.len(),
{
    if a.len() == 0 {
        assert(enc_events(a) + r =~= r);
        assert(enc_events(b) + s =~= s);
        assert(a =~= b);
    } else {
        lemma_events_from_the_front(a);
        lemma_events_from_the_front(b);
        let rest_a = enc_events(a.drop_first()) + r;
        let rest_b = enc_events(b.drop_first()) + s;
        assert(enc_events(a) + r =~= enc_event(a[0]) + rest_a);
        assert(enc_events(b) + s =~= enc_event(b[0]) + rest_b);
        lemma_event_apart(a[0], rest_a, b[0], rest_b);
        assert forall|i: int| 0 <= i < a.drop_first().len() implies event_fits(
            #[trigger] a.drop_first()[i],
        ) by {
            assert(a.drop_first()[i] == a[i + 1]);
        }
        assert forall|i: int| 0 <= i < b.drop_first().len() implies event_fits(
            #[trigger] b.drop_first()[i],
        ) by {
            assert(b.drop_first()[i] == b[i + 1]);
        }
        lemma_events_apart(a.drop_first(), r, b.drop_first(), s);
        assert(a =~= seq![a[0]] + a.drop_first());
        assert(b =~= seq![b[0]] + b.drop_first());
    }
}

/// Two batches whose signatures cover the same bytes have the same events
/// and the same timestamp: no event, no field of an event and no timestamp
/// can be changed without changing the bytes that were signed.
pub proof fn lemma_payload_tells_batches_apart(
    events: Seq<EventView>,
    timestamp: i64,
    other_events: Seq<EventView>,
    other_timestamp: i64,
)
    requires
        events_fit(events),
        events_fit(other_events),
        signing_payload(events, timestamp) == signing_payload(other_events, other_timestamp),
    ensures
        events == other_events,
        timestamp == other_timestamp,
{
    let rest = enc_events(events) + enc_i64(timestamp);
    let other_rest = enc_events(other_events) + enc_i64(other_timestamp);
    assert(signing_payload(events, timestamp) =~= enc_len(events.len()) + rest);
    assert(signing_payload(other_events, other_timestamp) =~= enc_len(other_events.len())
        + other_rest);
    lemma_len_apart(events.len(), rest, other_events.len(), other_rest);
    lemma_events_apart(events, enc_i64(timestamp), other_events, enc_i64(other_timestamp));
    assert(enc_i64(timestamp) + Seq::<u8>::empty() =~= enc_i64(timestamp));
    assert(enc_i64(other_timestamp) + Seq::<u8>::empty() =~= enc_i64(other_timestamp));
    lemma_i64_apart(timestamp, Seq::empty(), other_timestamp, Seq::empty());
}

/// A batch in which an event or the timestamp was changed has other bytes
/// under its signature than the batch it was made from.
pub proof fn lemma_changed_batch_has_other_bytes(
    events: Seq<EventView>,
    timestamp: i64,
    changed_events: Seq<EventView>,
    changed_timestamp: i64,
)
    requires
        events_fit(events),
        events_fit(changed_events),
        events != changed_events || timestamp != changed_timestamp,
    ensures
        signing_payload(events, timestamp) != signing_payload(changed_events, changed_timestamp),
{
    if signing_payload(events, timestamp) == signing_payload(changed_events, changed_timestamp) {
        lemma_payload_tells_batches_apart(events, timestamp, changed_events, changed_timestamp);
    }
}

/// Where signatures are checked, a batch that was changed and kept its
/// signature is accepted only if that one signature is the sender's
/// signature of two different byte strings: that of the batch as it was
/// signed, and that of the batch as it was changed.
pub proof fn lemma_kept_signature_must_fit_twice(
    signed: ExecutorEventCollection,
    changed: ExecutorEventCollection,
    sender_public_key: PublicKey,
)
    requires
        events_fit(event_views(signed.events@)),
        events_fit(event_views(changed.events@)),
        changed.signature@ == signed.signature@,
        event_views(changed.events@) != event_views(signed.events@) || changed.timestamp
            != signed.timestamp,
        authentic(signed, SecurityLevel::Normal, sender_public_key),
        authentic(changed, SecurityLevel::Normal, sender_public_key),
    ensures
        signed.payload() != changed.payload(),
        hex_bytes(signed.signature@) is Some,
        signature_accepted(
            sender_public_key,
            SignatureScheme::Sha256,
            signed.payload(),
            hex_bytes(signed.signature@).unwrap(),
        ),
        signature_accepted(
            sender_public_key,
            SignatureScheme::Sha256,
            changed.payload(),
            hex_bytes(signed.signature@).unwrap(),
        ),
{
    lemma_changed_batch_has_other_bytes(
        event_views(signed.events@),
        signed.timestamp,
        event_views(changed.events@),
        changed.timestamp,
    );
}

} // verus!
