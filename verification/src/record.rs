//! The on-disk form of one logged message, and of the log as a whole.
//!
//! A record is a stamp line, `\n$$$<millis>$$$<client>$$$<length>$$$\n`,
//! followed at once by `<length>` raw payload bytes. Nothing is escaped: a
//! payload may itself hold the delimiter.

use vstd::prelude::*;
use vstd::slice::slice_to_vec;
use vstd::string::StringExecFns;
use vstd::string::StringSliceAdditionalSpecFns;
use vstd::utf8::encode_utf8;
use crate::decimal::append_decimal;
use crate::decimal::decimal_text;

verus! {

/// The most bytes that one read takes from a connection.
pub const READ_BUFFER_SIZE: usize = 4096;

/// The delimiter between the fields of a stamp line.
pub open spec fn delimiter() -> Seq<char> {
    seq!['$', '$', '$']
}

/// The stamp line of a message of `length` bytes that `client` sent and that
/// arrived `millis` milliseconds after the epoch.
pub open spec fn stamp_text(millis: nat, client: Seq<char>, length: nat) -> Seq<char> {
    seq!['\n'] + delimiter() + decimal_text(millis) + delimiter() + client + delimiter()
        + decimal_text(length) + delimiter() + seq!['\n']
}

/// The bytes of one record in the log: the stamp line, then the payload.
pub open spec fn record_bytes(millis: nat, client: Seq<char>, payload: Seq<u8>) -> Seq<u8> {
    encode_utf8(stamp_text(millis, client, payload.len())) + payload
}

/// What the log holds once `records` have been appended, one after the other,
/// to a file that held `prior`.
pub open spec fn log_after(prior: Seq<u8>, records: Seq<Seq<u8>>) -> Seq<u8>
    decreases records.len(),
{
    if records.len() == 0 {
        prior
    } else {
        log_after(prior, records.drop_last()) + records.last()
    }
}

/// Where in the log the record with index `i` begins.
pub open spec fn record_offset(prior: Seq<u8>, records: Seq<Seq<u8>>, i: int) -> int {
    log_after(prior, records.take(i)).len() as int
}

/// One logged message as a mathematical value.
pub struct Message {
    pub millis: nat,
    pub client: Seq<char>,
    pub payload: Seq<u8>,
}

impl Message {
    /// The message's stamp line, as bytes.
    pub open spec fn stamp(self) -> Seq<u8> {
        encode_utf8(stamp_text(self.millis, self.client, self.payload.len()))
    }

    /// The message's record in the log.
    pub open spec fn record(self) -> Seq<u8> {
        record_bytes(self.millis, self.client, self.payload)
    }
}

/// The records of a sequence of messages, in the same order.
pub open spec fn records_of(messages: Seq<Message>) -> Seq<Seq<u8>> {
    Seq::new(messages.len(), |i: int| messages[i].record())
}

/// One message as it is logged.
#[derive(Debug)]
pub struct LogRecord {
    pub received_at_millis: u128,
    pub client_address: String,
    pub payload: Vec<u8>,
}

impl View for LogRecord {
    type V = Message;

    open spec fn view(&self) -> Message {
        Message {
            millis: self.received_at_millis as nat,
            client: self.client_address@,
            payload: self.payload@,
        }
    }
}

impl LogRecord {
    /// The number of payload bytes, which the stamp line announces.
    pub fn payload_length(&self) -> (n: usize)
        ensures
            n == self.payload@.len(),
    {
        self.payload.len()
    }

    /// The record's stamp line.
    pub fn stamp(&self) -> (line: String)
        ensures
            line@ == stamp_text(
                self.received_at_millis as nat,
                self.client_address@,
                self.payload@.len(),
            ),
    {
        stamp_line(self.received_at_millis, self.client_address.as_str(), self.payload.len())
    }

    /// The record as it is appended to the log.
    pub fn encode(&self) -> (out: Vec<u8>)
        ensures
            out@ == self@.record(),
    {
        encode_record(
            self.received_at_millis,
            self.client_address.as_str(),
            self.payload.as_slice(),
        )
    }
}

/// Builds the stamp line of a message.
pub fn stamp_line(millis: u128, client: &str, length: usize) -> (line: String)
    ensures
        line@ == stamp_text(millis as nat, client@, length as nat),
{
    proof {
        reveal_strlit("\n$$$");
        reveal_strlit("$$$");
        reveal_strlit("$$$\n");
    }
    let mut line = String::from_str("\n$$$");
    append_decimal(&mut line, millis);
    line.append("$$$");
    line.append(client);
    line.append("$$$");
    append_decimal(&mut line, length as u128);
    line.append("$$$\n");
    assert(line@ =~= stamp_text(millis as nat, client@, length as nat));
    line
}

/// Builds the bytes of one record: its stamp line and, right behind it, the
/// payload as it came.
pub fn encode_record(millis: u128, client: &str, payload: &[u8]) -> (out: Vec<u8>)
    ensures
        out@ == record_bytes(millis as nat, client@, payload@),
{
    let line = stamp_line(millis, client, payload.len());
    let mut out = slice_to_vec(line.as_str().as_bytes());
    let mut body = slice_to_vec(payload);
    out.append(&mut body);
    out
}

/// Appending records never touches what the file held before: the log still
/// begins with it, so a restart against an existing file keeps its content
/// and new records come strictly after it.
pub proof fn lemma_log_keeps_prior(prior: Seq<u8>, records: Seq<Seq<u8>>)
    ensures
        log_after(prior, records).len() >= prior.len(),
        log_after(prior, records).subrange(0, prior.len() as int) == prior,
    decreases records.len(),
{
    if records.len() > 0 {
        lemma_log_keeps_prior(prior, records.drop_last());
    }
    assert(log_after(prior, records).subrange(0, prior.len() as int) =~= prior);
}

/// A restart continues the log: records appended by a later run to what an
/// earlier run left give the same file as if one run had appended them all.
pub proof fn lemma_restart_continues_log(
    prior: Seq<u8>,
    earlier: Seq<Seq<u8>>,
    later: Seq<Seq<u8>>,
)
    ensures
        log_after(log_after(prior, earlier), later) == log_after(prior, earlier + later),
    decreases later.len(),
{
    if later.len() == 0 {
        assert(earlier + later =~= earlier);
    } else {
        lemma_restart_continues_log(prior, earlier, later.drop_last());
        assert((earlier + later).drop_last() =~= earlier + later.drop_last());
        assert((earlier + later).last() == later.last());
    }
}

/// A log only grows: what it held after the first `i` records is the
/// beginning of what it holds after all of them.
pub proof fn lemma_log_grows(prior: Seq<u8>, records: Seq<Seq<u8>>, i: int)
    requires
        0 <= i <= records.len(),
    ensures
        log_after(prior, records.take(i)).len() <= log_after(prior, records).len(),
        log_after(prior, records).subrange(0, record_offset(prior, records, i)) == log_after(
            prior,
            records.take(i),
        ),
    decreases records.len(),
{
    if i == records.len() {
        assert(records.take(i) =~= records);
        assert(log_after(prior, records).subrange(0, record_offset(prior, records, i))
            =~= log_after(prior, records));
    } else {
        let shorter = records.drop_last();
        lemma_log_grows(prior, shorter, i);
        assert(shorter.take(i) =~= records.take(i));
        assert(log_after(prior, records).subrange(0, record_offset(prior, records, i))
            =~= log_after(prior, shorter).subrange(0, record_offset(prior, shorter, i)));
    }
}

/// Every record stands in the log whole and in one piece: the record with
/// index `i` fills exactly the bytes from its offset to the offset of the
/// next, so no record is cut short and no two share a byte.
pub proof fn lemma_log_holds_records_whole(prior: Seq<u8>, records: Seq<Seq<u8>>, i: int)
    requires
        0 <= i < records.len(),
    ensures
        record_offset(prior, records, 0) == prior.len(),
        record_offset(prior, records, i + 1) == record_offset(prior, records, i)
            + records[i].len(),
        record_offset(prior, records, i + 1) <= log_after(prior, records).len(),
        record_offset(prior, records, records.len() as int) == log_after(prior, records).len(),
        log_after(prior, records).subrange(
            record_offset(prior, records, i),
            record_offset(prior, records, i + 1),
        ) == records[i],
{
    let upto = records.take(i + 1);
    assert(records.take(0) =~= Seq::<Seq<u8>>::empty());
    assert(records.take(records.len() as int) =~= records);
    assert(upto.drop_last() =~= records.take(i));
    assert(upto.last() == records[i]);
    lemma_log_grows(prior, records, i + 1);
    let whole = log_after(prior, records);
    let head = log_after(prior, upto);
    assert(head == log_after(prior, records.take(i)) + records[i]);
    assert(whole.subrange(record_offset(prior, records, i), record_offset(prior, records, i + 1))
        =~= head.subrange(record_offset(prior, records, i), head.len() as int));
    assert(head.subrange(record_offset(prior, records, i), head.len() as int) =~= records[i]);
}

/// However the writes of competing connections were ordered, the log is
/// what the file held before, followed by complete records and nothing else:
/// where the record of message `i` begins, its stamp line stands in full, the
/// payload follows it at once, in full and unchanged, and the next record, or
/// the end of the log, comes right after the payload's last byte.
pub proof fn lemma_log_is_stamps_and_payloads(prior: Seq<u8>, messages: Seq<Message>, i: int)
    requires
        0 <= i < messages.len(),
    ensures
        ({
            let log = log_after(prior, records_of(messages));
            let begin = record_offset(prior, records_of(messages), i);
            let end = record_offset(prior, records_of(messages), i + 1);
            let body = begin + messages[i].stamp().len();
            &&& prior.len() <= begin <= body <= end <= log.len()
            &&& end == body + messages[i].payload.len()
            &&& log.subrange(0, prior.len() as int) == prior
            &&& log.subrange(begin, body) == messages[i].stamp()
            &&& log.subrange(body, end) == messages[i].payload
            &&& i + 1 == messages.len() ==> end == log.len()
        }),
{
    let records = records_of(messages);
    let log = log_after(prior, records);
    let begin = record_offset(prior, records, i);
    let end = record_offset(prior, records, i + 1);
    let body = begin + messages[i].stamp().len();
    lemma_log_holds_records_whole(prior, records, i);
    lemma_log_keeps_prior(prior, records);
    lemma_log_keeps_prior(prior, records.take(i));
    assert(records[i] == messages[i].stamp() + messages[i].payload);
    assert(log.subrange(begin, body) =~= log.subrange(begin, end).subrange(
        0,
        messages[i].stamp().len() as int,
    ));
    assert(log.subrange(body, end) =~= log.subrange(begin, end).subrange(
        messages[i].stamp().len() as int,
        records[i].len() as int,
    ));
    assert(records[i].subrange(0, messages[i].stamp().len() as int) =~= messages[i].stamp());
    assert(records[i].subrange(messages[i].stamp().len() as int, records[i].len() as int)
        =~= messages[i].payload);
}

} // verus!
