//! The daemon's side of a request: from the request to the command it
//! carries, and from what the daemon knows to the response. Every response
//! echoes the id of its request.

use vstd::prelude::*;
use vstd::string::{StrSliceExecFns, StringExecFns};
use vstd::utf8::*;

use crate::codec::{
    detail_wire, encode_log_entries, encode_process_detail, encode_process_list, entries_wire,
    infos_wire, lemma_parse_string, lemma_parse_u32, lemma_parse_u8, parse_start, start_view,
    StartView,
};
use crate::error::VelosError;
use crate::log_sink::{interleaved, latest, LogRing};
use crate::protocol::{
    fault, parse_string, parse_u32, parse_u8, rest, val, views, BinaryReader, CommandCode,
    LogReadPayload, Request, Response, ResponseStatus, ScalePayload, StartPayload, StopPayload,
};
use crate::table::{detail_of, summary_of, ProcessTable, RecordView};
use crate::text::{byte_len, decimal, push_decimal};
use crate::wire::{string_le, u32_le};

verus! {

/// What a request asks for.
pub enum Command {
    Start(StartPayload),
    Stop(StopPayload),
    Restart(u32),
    Delete(u32),
    List,
    Info(u32),
    Scale(ScalePayload),
    LogRead(LogReadPayload),
    LogStream(u32),
    MetricsGet,
    StateSave,
    StateLoad,
    Ping,
    Shutdown,
}

/// The mathematical content of a [`Command`].
pub enum CommandView {
    Start(StartView),
    Stop { process_id: u32, signal: u8, timeout_ms: u32 },
    Restart(u32),
    Delete(u32),
    List,
    Info(u32),
    Scale { name: Seq<char>, target_count: u32 },
    LogRead { process_id: u32, lines: u32 },
    LogStream(u32),
    MetricsGet,
    StateSave,
    StateLoad,
    Ping,
    Shutdown,
}

impl View for Command {
    type V = CommandView;

    open spec fn view(&self) -> CommandView {
        match self {
            Command::Start(p) => CommandView::Start(start_view(*p)),
            Command::Stop(p) => CommandView::Stop {
                process_id: p.process_id,
                signal: p.signal,
                timeout_ms: p.timeout_ms,
            },
            Command::Restart(id) => CommandView::Restart(*id),
            Command::Delete(id) => CommandView::Delete(*id),
            Command::List => CommandView::List,
            Command::Info(id) => CommandView::Info(*id),
            Command::Scale(p) => CommandView::Scale { name: p.name@, target_count: p.target_count },
            Command::LogRead(p) => CommandView::LogRead {
                process_id: p.process_id,
                lines: p.lines,
            },
            Command::LogStream(id) => CommandView::LogStream(*id),
            Command::MetricsGet => CommandView::MetricsGet,
            Command::StateSave => CommandView::StateSave,
            Command::StateLoad => CommandView::StateLoad,
            Command::Ping => CommandView::Ping,
            Command::Shutdown => CommandView::Shutdown,
        }
    }
}

/// Reads the payload of a stop request.
pub open spec fn parse_stop(s: Seq<u8>) -> Result<(u32, u8, u32), Seq<char>> {
    let id = parse_u32(s);
    let signal = parse_u8(rest(id));
    let timeout = parse_u32(rest(signal));
    if id is Err {
        Err(fault(id))
    } else if signal is Err {
        Err(fault(signal))
    } else if timeout is Err {
        Err(fault(timeout))
    } else {
        Ok((val(id), val(signal), val(timeout)))
    }
}

/// Reads the payload of a scale request.
pub open spec fn parse_scale(s: Seq<u8>) -> Result<(Seq<char>, u32), Seq<char>> {
    let name = parse_string(s);
    let target = parse_u32(rest(name));
    if name is Err {
        Err(fault(name))
    } else if target is Err {
        Err(fault(target))
    } else {
        Ok((val(name), val(target)))
    }
}

/// Reads the payload of a request for log entries.
pub open spec fn parse_log_read(s: Seq<u8>) -> Result<(u32, u32), Seq<char>> {
    let id = parse_u32(s);
    let lines = parse_u32(rest(id));
    if id is Err {
        Err(fault(id))
    } else if lines is Err {
        Err(fault(lines))
    } else {
        Ok((val(id), val(lines)))
    }
}

/// Reads a payload that is one process id.
pub open spec fn parse_id(s: Seq<u8>) -> Result<u32, Seq<char>> {
    match parse_u32(s) {
        Ok((id, _)) => Ok(id),
        Err(m) => Err(m),
    }
}

/// The command that a command code and a payload stand for, or the message
/// of the protocol error where the payload cannot be read. Bytes after the
/// payload are ignored.
pub open spec fn parse_command(code: CommandCode, payload: Seq<u8>) -> Result<
    CommandView,
    Seq<char>,
> {
    match code {
        CommandCode::ProcessStart => match parse_start(payload) {
            Ok((p, _)) => Ok(CommandView::Start(p)),
            Err(m) => Err(m),
        },
        CommandCode::ProcessStop => match parse_stop(payload) {
            Ok((process_id, signal, timeout_ms)) => Ok(
                CommandView::Stop { process_id, signal, timeout_ms },
            ),
            Err(m) => Err(m),
        },
        CommandCode::ProcessRestart => match parse_id(payload) {
            Ok(id) => Ok(CommandView::Restart(id)),
            Err(m) => Err(m),
        },
        CommandCode::ProcessDelete => match parse_id(payload) {
            Ok(id) => Ok(CommandView::Delete(id)),
            Err(m) => Err(m),
        },
        CommandCode::ProcessList => Ok(CommandView::List),
        CommandCode::ProcessInfo => match parse_id(payload) {
            Ok(id) => Ok(CommandView::Info(id)),
            Err(m) => Err(m),
        },
        CommandCode::ProcessScale => match parse_scale(payload) {
            Ok((name, target_count)) => Ok(CommandView::Scale { name, target_count }),
            Err(m) => Err(m),
        },
        CommandCode::LogRead => match parse_log_read(payload) {
            Ok((process_id, lines)) => Ok(CommandView::LogRead { process_id, lines }),
            Err(m) => Err(m),
        },
        CommandCode::LogStream => match parse_id(payload) {
            Ok(id) => Ok(CommandView::LogStream(id)),
            Err(m) => Err(m),
        },
        CommandCode::MetricsGet => Ok(CommandView::MetricsGet),
        CommandCode::StateSave => Ok(CommandView::StateSave),
        CommandCode::StateLoad => Ok(CommandView::StateLoad),
        CommandCode::Ping => Ok(CommandView::Ping),
        CommandCode::Shutdown => Ok(CommandView::Shutdown),
    }
}

/// A stop payload that was written is read back.
pub proof fn lemma_stop_roundtrip(p: StopPayload)
    ensures
        parse_stop(p.wire()) == Ok::<(u32, u8, u32), Seq<char>>(
            (p.process_id, p.signal, p.timeout_ms),
        ),
{
    let t2 = u32_le(p.timeout_ms) + Seq::<u8>::empty();
    let t1 = seq![p.signal] + t2;
    assert(p.wire() =~= u32_le(p.process_id) + t1);
    lemma_parse_u32(p.process_id, t1);
    lemma_parse_u8(p.signal, t2);
    lemma_parse_u32(p.timeout_ms, Seq::empty());
}

/// A scale payload that was written is read back, provided that the name
/// fits its length prefix.
pub proof fn lemma_scale_roundtrip(p: ScalePayload)
    requires
        byte_len(p.name@) <= u32::MAX,
    ensures
        parse_scale(p.wire()) == Ok::<(Seq<char>, u32), Seq<char>>((p.name@, p.target_count)),
{
    let t1 = u32_le(p.target_count) + Seq::<u8>::empty();
    assert(p.wire() =~= string_le(p.name@) + t1);
    lemma_parse_string(p.name@, t1);
    lemma_parse_u32(p.target_count, Seq::empty());
}

/// A request for log entries that was written is read back.
pub proof fn lemma_log_read_roundtrip(process_id: u32, lines: u32)
    ensures
        parse_log_read(u32_le(process_id) + u32_le(lines)) == Ok::<(u32, u32), Seq<char>>(
            (process_id, lines),
        ),
{
    let t1 = u32_le(lines) + Seq::<u8>::empty();
    assert(u32_le(process_id) + u32_le(lines) =~= u32_le(process_id) + t1);
    lemma_parse_u32(process_id, t1);
    lemma_parse_u32(lines, Seq::empty());
}

/// A process id that was written is read back.
pub proof fn lemma_id_roundtrip(id: u32)
    ensures
        parse_id(u32_le(id)) == Ok::<u32, Seq<char>>(id),
{
    assert(u32_le(id) =~= u32_le(id) + Seq::<u8>::empty());
    lemma_parse_u32(id, Seq::empty());
}

/// Reads a process id from a payload.
fn read_id(payload: &[u8]) -> (r: Result<u32, VelosError>)
    ensures
        match parse_id(payload@) {
            Ok(id) => r matches Ok(x) && x == id,
            Err(m) => r matches Err(e) && e.is_protocol(m),
        },
{
    let mut r = BinaryReader::new(payload);
    r.read_u32()
}

impl Command {
    /// Reads the command that a request carries.
    pub fn of(req: &Request) -> (r: Result<Command, VelosError>)
        ensures
            match parse_command(req.command, req.payload@) {
                Ok(v) => r matches Ok(c) && c@ == v,
                Err(m) => r matches Err(e) && e.is_protocol(m),
            },
    {
        let payload: &[u8] = req.payload.as_slice();
        match req.command {
            CommandCode::ProcessStart => Ok(Command::Start(StartPayload::decode(payload)?)),
            CommandCode::ProcessStop => {
                let mut r = BinaryReader::new(payload);
                let process_id: u32 = r.read_u32()?;
                let signal: u8 = r.read_u8()?;
                let timeout_ms: u32 = r.read_u32()?;
                Ok(Command::Stop(StopPayload { process_id, signal, timeout_ms }))
            },
            CommandCode::ProcessRestart => Ok(Command::Restart(read_id(payload)?)),
            CommandCode::ProcessDelete => Ok(Command::Delete(read_id(payload)?)),
            CommandCode::ProcessList => Ok(Command::List),
            CommandCode::ProcessInfo => Ok(Command::Info(read_id(payload)?)),
            CommandCode::ProcessScale => {
                let mut r = BinaryReader::new(payload);
                let name: String = r.read_string()?;
                let target_count: u32 = r.read_u32()?;
                Ok(Command::Scale(ScalePayload { name, target_count }))
            },
            CommandCode::LogRead => {
                let mut r = BinaryReader::new(payload);
                let process_id: u32 = r.read_u32()?;
                let lines: u32 = r.read_u32()?;
                Ok(Command::LogRead(LogReadPayload { process_id, lines }))
            },
            CommandCode::LogStream => Ok(Command::LogStream(read_id(payload)?)),
            CommandCode::MetricsGet => Ok(Command::MetricsGet),
            CommandCode::StateSave => Ok(Command::StateSave),
            CommandCode::StateLoad => Ok(Command::StateLoad),
            CommandCode::Ping => Ok(Command::Ping),
            CommandCode::Shutdown => Ok(Command::Shutdown),
        }
    }
}

// ------------------------------------------------------------------
// Responses
// ------------------------------------------------------------------
/// The response that ends a request with success.
pub fn reply_ok(req: &Request, payload: Vec<u8>) -> (resp: Response)
    ensures
        resp.id == req.id,
        resp.status == ResponseStatus::Okay,
        resp.payload@ == payload@,
{
    Response::reply(req.id, ResponseStatus::Okay, payload)
}

/// A frame of a streaming response; any number of them may precede the
/// response that ends the request.
pub fn reply_streaming(req: &Request, payload: Vec<u8>) -> (resp: Response)
    ensures
        resp.id == req.id,
        resp.status == ResponseStatus::Streaming,
        resp.payload@ == payload@,
{
    Response::reply(req.id, ResponseStatus::Streaming, payload)
}

/// The response that ends a request with an error: its payload is the
/// message of the error in UTF-8, which the client reads back as it is.
pub fn reply_error(req: &Request, e: &VelosError) -> (resp: Response)
    ensures
        resp.id == req.id,
        resp.status == ResponseStatus::Error,
        resp.payload@ == encode_utf8(e.text()),
        valid_utf8(resp.payload@),
        decode_utf8(resp.payload@) == e.text(),
{
    broadcast use encode_utf8_valid_utf8, encode_utf8_decode_utf8;

    let text = e.to_string();
    let payload = text.as_str().as_bytes_vec();
    Response::reply(req.id, ResponseStatus::Error, payload)
}

// ------------------------------------------------------------------
// One request, one final response
// ------------------------------------------------------------------
/// Where the answer to one request stands.
#[derive(Debug, Clone, Copy, PartialEq, Eq, Structural)]
pub enum Exchange {
    /// No response has ended the request yet.
    Open,
    /// A response has ended the request: nothing more may be sent for it.
    Closed,
}

impl Exchange {
    /// Whether a response with `status` may be sent.
    pub open spec fn admits(self, status: ResponseStatus) -> bool {
        self == Exchange::Open
    }

    /// The exchange after a response with `status` was sent.
    pub open spec fn after(self, status: ResponseStatus) -> Exchange {
        if self == Exchange::Open && status == ResponseStatus::Streaming {
            Exchange::Open
        } else {
            Exchange::Closed
        }
    }

    /// The exchange after the first `n` of the `statuses` were sent.
    pub open spec fn after_all(self, statuses: Seq<ResponseStatus>, n: int) -> Exchange
        decreases n,
    {
        if n <= 0 || n > statuses.len() {
            self
        } else {
            self.after_all(statuses, n - 1).after(statuses[n - 1])
        }
    }

    /// Whether the `statuses` may be sent one after the other.
    pub open spec fn admits_all(self, statuses: Seq<ResponseStatus>) -> bool {
        forall|i: int|
            0 <= i < statuses.len() ==> (#[trigger] self.after_all(statuses, i)).admits(statuses[i])
    }

    /// The exchange for a request that has just arrived.
    pub fn new() -> (x: Self)
        ensures
            x == Exchange::Open,
    {
        Exchange::Open
    }

    /// Notes a response that is about to be sent, and tells whether it may
    /// be sent: a response after the final one is refused, and changes
    /// nothing.
    pub fn send(&mut self, resp: &Response) -> (allowed: bool)
        ensures
            allowed == old(self).admits(resp.status),
            *final(self) == (if allowed {
                old(self).after(resp.status)
            } else {
                *old(self)
            }),
    {
        match *self {
            Exchange::Open => {
                if resp.status.is_terminal() {
                    *self = Exchange::Closed;
                }
                true
            },
            Exchange::Closed => false,
        }
    }
}

/// Every sequence of responses that may be sent for one request and ends
/// it consists of streaming frames followed by exactly one final response.
pub proof fn lemma_one_final_response(statuses: Seq<ResponseStatus>)
    requires
        Exchange::Open.admits_all(statuses),
        Exchange::Open.after_all(statuses, statuses.len() as int) == Exchange::Closed,
    ensures
        statuses.len() >= 1,
        statuses.last() != ResponseStatus::Streaming,
        forall|i: int| 0 <= i < statuses.len() - 1 ==> statuses[i] == ResponseStatus::Streaming,
{
    let n = statuses.len() as int;
    assert(n >= 1);
    assert forall|i: int| 0 <= i < n - 1 implies statuses[i] == ResponseStatus::Streaming by {
        assert(Exchange::Open.after_all(statuses, i + 1).admits(statuses[i + 1]));
    }
    lemma_streaming_stays_open(statuses, n - 1);
}

/// As long as only streaming frames were sent, the exchange is open.
pub proof fn lemma_streaming_stays_open(statuses: Seq<ResponseStatus>, n: int)
    requires
        0 <= n <= statuses.len(),
        forall|i: int| 0 <= i < n ==> statuses[i] == ResponseStatus::Streaming,
    ensures
        Exchange::Open.after_all(statuses, n) == Exchange::Open,
    decreases n,
{
    if n > 0 {
        lemma_streaming_stays_open(statuses, n - 1);
    }
}

/// The message for a process id that the table does not hold.
pub open spec fn unknown_id_text(id: u32) -> Seq<char> {
    "process not found: "@ + decimal(id as nat)
}

/// The error for a process id that the table does not hold.
fn unknown_id(id: u32) -> (e: VelosError)
    ensures
        e.is_not_found(decimal(id as nat)),
        e.text() == unknown_id_text(id),
{
    let mut name = String::new();
    push_decimal(&mut name, id as u64);
    assert(name@ =~= decimal(id as nat));
    VelosError::ProcessNotFound(name)
}

/// Answers a request for the process list at `now`.
pub fn answer_list(req: &Request, table: &ProcessTable, now: u64) -> (resp: Response)
    ensures
        resp.id == req.id,
        resp.status == ResponseStatus::Okay,
        resp.payload@ == u32_le((table@.records.len() as int % 4294967296) as u32) + infos_wire(
            table@.records.map_values(|r: RecordView| summary_of(r, now)),
            Seq::empty(),
        ),
{
    let list = table.list(now);
    reply_ok(req, encode_process_list(list.as_slice()))
}

/// Answers a request for the detail of a process at `now`: the detail, or
/// an error where the payload cannot be read or the table does not hold
/// the process.
pub fn answer_info(req: &Request, table: &ProcessTable, now: u64) -> (resp: Response)
    ensures
        resp.id == req.id,
        match parse_id(req.payload@) {
            Err(m) => resp.status == ResponseStatus::Error && resp.payload@ == encode_utf8(
                "protocol error: "@ + m,
            ),
            Ok(id) => match table@.index_of(id) {
                None => resp.status == ResponseStatus::Error && resp.payload@ == encode_utf8(
                    unknown_id_text(id),
                ),
                Some(i) => resp.status == ResponseStatus::Okay && resp.payload@ == detail_wire(
                    detail_of(table@.records[i], now),
                    Seq::empty(),
                ),
            },
        },
{
    let id: u32 = match read_id(req.payload.as_slice()) {
        Ok(id) => id,
        Err(e) => {
            return reply_error(req, &e);
        },
    };
    match table.detail(id, now) {
        Some(detail) => reply_ok(req, encode_process_detail(&detail)),
        None => reply_error(req, &unknown_id(id)),
    }
}

/// Answers a request for the latest log entries of a process from its
/// ring: the entries interleaved by time, or an error where the payload
/// cannot be read.
pub fn answer_log_read(req: &Request, ring: &LogRing) -> (resp: Response)
    ensures
        resp.id == req.id,
        match parse_log_read(req.payload@) {
            Err(m) => resp.status == ResponseStatus::Error && resp.payload@ == encode_utf8(
                "protocol error: "@ + m,
            ),
            Ok((_, lines)) => {
                let entries = interleaved(latest(ring@, lines as nat));
                resp.status == ResponseStatus::Okay && resp.payload@ == u32_le(
                    (entries.len() as int % 4294967296) as u32,
                ) + entries_wire(entries, Seq::empty())
            },
        },
{
    let mut r = BinaryReader::new(req.payload.as_slice());
    let _id: u32 = match r.read_u32() {
        Ok(id) => id,
        Err(e) => {
            return reply_error(req, &e);
        },
    };
    let lines: u32 = match r.read_u32() {
        Ok(n) => n,
        Err(e) => {
            return reply_error(req, &e);
        },
    };
    let entries = ring.read(lines);
    reply_ok(req, encode_log_entries(entries.as_slice()))
}

/// Answers a ping.
pub fn answer_ping(req: &Request) -> (resp: Response)
    ensures
        resp.id == req.id,
        resp.status == ResponseStatus::Okay,
        resp.payload@ == encode_utf8("pong"@),
{
    reply_ok(req, "pong".as_bytes_vec())
}

} // verus!
