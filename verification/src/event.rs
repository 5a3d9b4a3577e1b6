//! The events that an executor reports, and the batch in which they travel.
//!
//! A batch is signed over a canonical encoding of its events and its
//! timestamp: every number in eight (or four) little-endian bytes, every
//! text and byte string behind its length, every choice behind a tag byte.

use crate::codec::decode_hex;
use crate::codec::encode_hex;
use crate::codec::hex_bytes;
use crate::codec::hex_text;
use crate::keys::signature_of;
use crate::keys::too_long_to_sign;
use crate::keys::PublicKey;
use crate::keys::SignError;
use crate::keys::SignatureScheme;
use crate::security::trusted;
use crate::security::SecurityConf;
use crate::security::SecurityLevel;
use vstd::bytes::spec_u32_to_le_bytes;
use vstd::bytes::spec_u64_to_le_bytes;
use vstd::bytes::u32_to_le_bytes;
use vstd::bytes::u64_to_le_bytes;
use vstd::prelude::*;
use vstd::utf8::encode_utf8;

verus! {

/// What a finished child process left behind.
#[derive(Debug, Clone, Default, PartialEq, Eq)]
pub struct ChildOutput {
    pub child_status: i32,
    pub child_stdout: Vec<u8>,
    pub child_stderr: Vec<u8>,
}

/// How a task run ended: with the output of its process, or with the reason
/// why there is none.
#[derive(Debug, Clone, PartialEq, Eq)]
pub enum FinishOutput {
    ProcessOutput(ChildOutput),
    ExceptionOutput(String),
}

/// One report of an executor about one task run.
#[derive(Debug, Clone, Default, PartialEq, Eq)]
pub struct ExecutorEvent {
    pub task_id: i64,
    pub record_id: Option<i64>,
    pub event_type: i64,
    pub executor_processor_id: i64,
    pub executor_processor_name: String,
    pub executor_processor_host: String,
    pub output: Option<FinishOutput>,
}

/// A batch of reports, signed by the executor that sends it. The signature
/// travels as hexadecimal text.
#[derive(Debug, Clone, Default, PartialEq, Eq)]
pub struct ExecutorEventCollection {
    pub events: Vec<ExecutorEvent>,
    pub signature: String,
    pub timestamp: i64,
}

/// What an output holds.
pub ghost enum OutputView {
    Process { status: i32, stdout: Seq<u8>, stderr: Seq<u8> },
    Exception { message: Seq<char> },
}

/// What an event holds.
pub ghost struct EventView {
    pub task_id: i64,
    pub record_id: Option<i64>,
    pub event_type: i64,
    pub executor_processor_id: i64,
    pub executor_processor_name: Seq<char>,
    pub executor_processor_host: Seq<char>,
    pub output: Option<OutputView>,
}

impl View for FinishOutput {
    type V = OutputView;

    open spec fn view(&self) -> OutputView {
        match self {
            FinishOutput::ProcessOutput(child) => OutputView::Process {
                status: child.child_status,
                stdout: child.child_stdout@,
                stderr: child.child_stderr@,
            },
            FinishOutput::ExceptionOutput(message) => OutputView::Exception { message: message@ },
        }
    }
}

/// What an output holds, if there is one.
pub open spec fn output_view(output: Option<FinishOutput>) -> Option<OutputView> {
    match output {
        Some(o) => Some(o@),
        None => None,
    }
}

impl View for ExecutorEvent {
    type V = EventView;

    open spec fn view(&self) -> EventView {
        EventView {
            task_id: self.task_id,
            record_id: self.record_id,
            event_type: self.event_type,
            executor_processor_id: self.executor_processor_id,
            executor_processor_name: self.executor_processor_name@,
            executor_processor_host: self.executor_processor_host@,
            output: output_view(self.output),
        }
    }
}

/// What the events of a list hold, in the order of the list.
pub open spec fn event_views(events: Seq<ExecutorEvent>) -> Seq<EventView> {
    Seq::new(events.len(), |i: int| events[i]@)
}

/// A signed number in eight bytes: shifted to be unsigned, lowest byte first.
pub open spec fn enc_i64(x: i64) -> Seq<u8> {
    spec_u64_to_le_bytes((x + 0x8000_0000_0000_0000) as u64)
}

/// A signed number in four bytes: shifted to be unsigned, lowest byte first.
pub open spec fn enc_i32(x: i32) -> Seq<u8> {
    spec_u32_to_le_bytes((x + 0x8000_0000) as u32)
}

/// A count in eight bytes, lowest byte first.
pub open spec fn enc_len(n: nat) -> Seq<u8> {
    spec_u64_to_le_bytes(n as u64)
}

/// Bytes behind their count.
pub open spec fn enc_bytes(bytes: Seq<u8>) -> Seq<u8> {
    enc_len(bytes.len()) + bytes
}

/// A text as its UTF-8 bytes behind their count.
pub open spec fn enc_text(text: Seq<char>) -> Seq<u8> {
    enc_bytes(encode_utf8(text))
}

/// A record id behind a tag that says whether there is one.
pub open spec fn enc_record_id(id: Option<i64>) -> Seq<u8> {
    match id {
        None => seq![0u8],
        Some(x) => seq![1u8] + enc_i64(x),
    }
}

/// An output behind a tag that says which kind it is, if any.
pub open spec fn enc_output(output: Option<OutputView>) -> Seq<u8> {
    match output {
        None => seq![0u8],
        Some(OutputView::Process { status, stdout, stderr }) => seq![1u8] + enc_i32(status)
            + enc_bytes(stdout) + enc_bytes(stderr),
        Some(OutputView::Exception { message }) => seq![2u8] + enc_text(message),
    }
}

/// An event, field after field.
pub open spec fn enc_event(event: EventView) -> Seq<u8> {
    enc_i64(event.task_id) + enc_record_id(event.record_id) + enc_i64(event.event_type) + enc_i64(
        event.executor_processor_id,
    ) + enc_text(event.executor_processor_name) + enc_text(event.executor_processor_host)
        + enc_output(event.output)
}

/// The events of a list, one after the other.
pub open spec fn enc_events(events: Seq<EventView>) -> Seq<u8>
    decreases events.len(),
{
    if events.len() == 0 {
        Seq::empty()
    } else {
        enc_events(events.drop_last()) + enc_event(events.last())
    }
}

/// The bytes that the signature of a batch covers: the number of events, the
/// events, and the timestamp.
pub open spec fn signing_payload(events: Seq<EventView>, timestamp: i64) -> Seq<u8> {
    enc_len(events.len()) + enc_events(events) + enc_i64(timestamp)
}

fn put(out: &mut Vec<u8>, bytes: &[u8])
    ensures
        final(out)@ == old(out)@ + bytes@,
{
    let mut i: usize = 0;
    while i < bytes.len()
        invariant
            i <= bytes.len(),
            out@ == old(out)@ + bytes@.take(i as int),
        decreases bytes.len() - i,
    {
        out.push(bytes[i]);
        i += 1;
        assert(out@ =~= old(out)@ + bytes@.take(i as int));
    }
    assert(bytes@.take(i as int) =~= bytes@);
}

fn put_len(out: &mut Vec<u8>, n: usize)
    ensures
        final(out)@ == old(out)@ + enc_len(n as nat),
{
    let bytes = u64_to_le_bytes(n as u64);
    put(out, bytes.as_slice());
}

fn put_i64(out: &mut Vec<u8>, x: i64)
    ensures
        final(out)@ == old(out)@ + enc_i64(x),
{
    let shifted: u64 = if x >= 0 {
        x as u64 + 0x8000_0000_0000_0000u64
    } else {
        (x - i64::MIN) as u64
    };
    let bytes = u64_to_le_bytes(shifted);
    put(out, bytes.as_slice());
}

fn put_i32(out: &mut Vec<u8>, x: i32)
    ensures
        final(out)@ == old(out)@ + enc_i32(x),
{
    let shifted: u32 = if x >= 0 {
        x as u32 + 0x8000_0000u32
    } else {
        (x - i32::MIN) as u32
    };
    let bytes = u32_to_le_bytes(shifted);
    put(out, bytes.as_slice());
}

fn put_bytes(out: &mut Vec<u8>, bytes: &[u8])
    ensures
        final(out)@ == old(out)@ + enc_bytes(bytes@),
{
    put_len(out, bytes.len());
    put(out, bytes);
    assert(out@ =~= old(out)@ + enc_bytes(bytes@));
}

fn put_text(out: &mut Vec<u8>, text: &str)
    ensures
        final(out)@ == old(out)@ + enc_text(text@),
{
    put_bytes(out, text.as_bytes());
}

fn put_output(out: &mut Vec<u8>, output: &Option<FinishOutput>)
    ensures
        final(out)@ == old(out)@ + enc_output(output_view(*output)),
{
    match output {
        None => {
            out.push(0u8);
            assert(out@ =~= old(out)@ + seq![0u8]);
        },
        Some(FinishOutput::ProcessOutput(child)) => {
            out.push(1u8);
            put_i32(out, child.child_status);
            put_bytes(out, child.child_stdout.as_slice());
            put_bytes(out, child.child_stderr.as_slice());
            assert(out@ =~= old(out)@ + (seq![1u8] + enc_i32(child.child_status) + enc_bytes(
                child.child_stdout@,
            ) + enc_bytes(child.child_stderr@)));
        },
        Some(FinishOutput::ExceptionOutput(message)) => {
            out.push(2u8);
            put_text(out, message.as_str());
            assert(out@ =~= old(out)@ + (seq![2u8] + enc_text(message@)));
        },
    }
}

fn put_event(out: &mut Vec<u8>, event: &ExecutorEvent)
    ensures
        final(out)@ == old(out)@ + enc_event(event@),
{
    put_i64(out, event.task_id);
    match event.record_id {
        None => {
            out.push(0u8);
        },
        Some(id) => {
            out.push(1u8);
            put_i64(out, id);
        },
    }
    assert(out@ =~= old(out)@ + enc_i64(event.task_id) + enc_record_id(event.record_id));
    put_i64(out, event.event_type);
    put_i64(out, event.executor_processor_id);
    put_text(out, event.executor_processor_name.as_str());
    put_text(out, event.executor_processor_host.as_str());
    put_output(out, &event.output);
    assert(out@ =~= old(out)@ + enc_event(event@));
}

/// The bytes that the signature of a batch of these events with this
/// timestamp covers.
pub fn payload_of(events: &Vec<ExecutorEvent>, timestamp: i64) -> (payload: Vec<u8>)
    ensures
        payload@ == signing_payload(event_views(events@), timestamp),
{
    let mut out: Vec<u8> = Vec::new();
    put_len(&mut out, events.len());
    let ghost views = event_views(events@);
    let mut i: usize = 0;
    while i < events.len()
        invariant
            i <= events.len(),
            views == event_views(events@),
            out@ == enc_len(events@.len()) + enc_events(views.take(i as int)),
        decreases events.len() - i,
    {
        put_event(&mut out, &events[i]);
        proof {
            let next = views.take(i + 1);
            assert(next.drop_last() =~= views.take(i as int));
            assert(next.last() == events@[i as int]@);
            assert(out@ =~= enc_len(events@.len()) + enc_events(next));
        }
        i += 1;
    }
    assert(views.take(i as int) =~= views);
    put_i64(&mut out, timestamp);
    out
}

impl ExecutorEventCollection {
    /// The bytes that the signature of this batch covers.
    pub open spec fn payload(self) -> Seq<u8> {
        signing_payload(event_views(self.events@), self.timestamp)
    }

    /// The bytes that the signature of this batch covers.
    pub fn signing_payload(&self) -> (payload: Vec<u8>)
        ensures
            payload@ == self.payload(),
    {
        payload_of(&self.events, self.timestamp)
    }

    /// Puts events and a timestamp into a batch and signs it as `conf` says:
    /// with its key where signing is required, with the empty signature where
    /// nothing is restricted.
    pub fn sign(
        events: Vec<ExecutorEvent>,
        timestamp: i64,
        conf: &SecurityConf,
    ) -> (res: Result<ExecutorEventCollection, SignError>)
        ensures
            match res {
                Ok(batch) => {
                    &&& batch.events == events
                    &&& batch.timestamp == timestamp
                    &&& exists|signature: Seq<u8>|
                        {
                            &&& batch.signature@ == hex_text(signature)
                            &&& #[trigger] signed_as(*conf, batch.payload(), signature)
                        }
                },
                Err(e) => {
                    &&& conf.level() == SecurityLevel::Normal
                    &&& signature_of(
                        conf.key().unwrap()@,
                        SignatureScheme::Sha256,
                        signing_payload(event_views(events@), timestamp),
                    ) is None
                    &&& e == SignError::MessageTooLong <==> too_long_to_sign(
                        conf.key().unwrap()@.n,
                        SignatureScheme::Sha256,
                        signing_payload(event_views(events@), timestamp),
                    )
                },
            },
    {
        let payload = payload_of(&events, timestamp);
        match conf.sign(payload.as_slice()) {
            Ok(signature) => {
                let text = encode_hex(signature.as_slice());
                let batch = ExecutorEventCollection { events, signature: text, timestamp };
                assert(signed_as(*conf, batch.payload(), signature@));
                Ok(batch)
            },
            Err(e) => Err(e),
        }
    }

    /// Whether the batch is to be accepted as coming from the holder of
    /// `sender_public_key`. A signature that is no hexadecimal text is not
    /// accepted where signatures are checked.
    pub fn is_authentic(&self, conf: &SecurityConf, sender_public_key: &PublicKey) -> (ok: bool)
        ensures
            ok == authentic(*self, conf.level(), *sender_public_key),
    {
        let payload = self.signing_payload();
        match decode_hex(self.signature.as_str()) {
            Some(signature) => conf.verify(
                payload.as_slice(),
                signature.as_slice(),
                sender_public_key,
            ),
            None => match conf.security_level() {
                SecurityLevel::ZeroRestriction => true,
                SecurityLevel::Normal => false,
            },
        }
    }
}

/// Whether `signature` is what `conf` signs `payload` with.
pub open spec fn signed_as(conf: SecurityConf, payload: Seq<u8>, signature: Seq<u8>) -> bool {
    match conf.level() {
        SecurityLevel::ZeroRestriction => signature.len() == 0,
        SecurityLevel::Normal => conf.key() is Some && signature_of(
            conf.key().unwrap()@,
            SignatureScheme::Sha256,
            payload,
        ) == Some(signature),
    }
}

/// Whether a batch is accepted at a security level as coming from the holder
/// of a public key.
pub open spec fn authentic(
    batch: ExecutorEventCollection,
    level: SecurityLevel,
    sender_public_key: PublicKey,
) -> bool {
    match hex_bytes(batch.signature@) {
        Some(signature) => trusted(level, sender_public_key, batch.payload(), signature),
        None => level == SecurityLevel::ZeroRestriction,
    }
}

} // verus!
