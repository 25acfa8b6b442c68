//! What a client of the daemon sends for each operation, and how it reads
//! the status of the answer.

use vstd::prelude::*;
use vstd::utf8::*;

use crate::error::VelosError;
use crate::protocol::{
    CommandCode, DeletePayload, InfoPayload, LogReadPayload, Request, Response, ResponseStatus,
    RestartPayload, ScalePayload, StartPayload, StopPayload,
};
use crate::outside::lossy_text;
use crate::wire::u32_le;

verus! {

/// The signal that asks a process to terminate.
pub const SIGTERM: u8 = 15;

/// How long a client lets the daemon wait for a process to stop before the
/// kill, in milliseconds.
pub const STOP_TIMEOUT_MS: u32 = 5000;

/// The source of request ids of one connection: 1, 2, 3 and so on, back to
/// 0 after `u32::MAX`.
pub struct RequestIds {
    next: u32,
}

impl RequestIds {
    /// The id that the next request gets.
    pub closed spec fn upcoming(&self) -> u32 {
        self.next
    }

    /// A source whose first id is 1.
    pub fn new() -> (ids: Self)
        ensures
            ids.upcoming() == 1,
    {
        Self { next: 1 }
    }

    /// Takes the next id.
    pub fn next(&mut self) -> (id: u32)
        ensures
            id == old(self).upcoming(),
            final(self).upcoming() == if old(self).upcoming() == u32::MAX {
                0
            } else {
                (old(self).upcoming() + 1) as u32
            },
    {
        let id: u32 = self.next;
        self.next = if id == u32::MAX {
            0
        } else {
            id + 1
        };
        id
    }
}

/// The request of `ProcessStart` for a payload.
pub fn start_request(id: u32, payload: &StartPayload) -> (r: Request)
    ensures
        r.id == id,
        r.command == CommandCode::ProcessStart,
        r.payload@ == payload.wire(),
{
    Request { id, command: CommandCode::ProcessStart, payload: payload.encode() }
}

/// The request to stop a process: with SIGTERM, and the kill after five
/// seconds.
pub fn stop_request(id: u32, process_id: u32) -> (r: Request)
    ensures
        r.id == id,
        r.command == CommandCode::ProcessStop,
        r.payload@ == (StopPayload { process_id, signal: 15, timeout_ms: 5000 }).wire(),
{
    let payload = StopPayload { process_id, signal: SIGTERM, timeout_ms: STOP_TIMEOUT_MS };
    Request { id, command: CommandCode::ProcessStop, payload: payload.encode() }
}

/// The request to restart a process.
pub fn restart_request(id: u32, process_id: u32) -> (r: Request)
    ensures
        r.id == id,
        r.command == CommandCode::ProcessRestart,
        r.payload@ == u32_le(process_id),
{
    Request {
        id,
        command: CommandCode::ProcessRestart,
        payload: (RestartPayload { process_id }).encode(),
    }
}

/// The request to delete a process.
pub fn delete_request(id: u32, process_id: u32) -> (r: Request)
    ensures
        r.id == id,
        r.command == CommandCode::ProcessDelete,
        r.payload@ == u32_le(process_id),
{
    Request {
        id,
        command: CommandCode::ProcessDelete,
        payload: (DeletePayload { process_id }).encode(),
    }
}

/// The request for the detail of a process.
pub fn info_request(id: u32, process_id: u32) -> (r: Request)
    ensures
        r.id == id,
        r.command == CommandCode::ProcessInfo,
        r.payload@ == u32_le(process_id),
{
    Request { id, command: CommandCode::ProcessInfo, payload: (InfoPayload { process_id }).encode() }
}

/// The request for the latest `lines` log entries of a process.
pub fn logs_request(id: u32, process_id: u32, lines: u32) -> (r: Request)
    ensures
        r.id == id,
        r.command == CommandCode::LogRead,
        r.payload@ == u32_le(process_id) + u32_le(lines),
{
    Request {
        id,
        command: CommandCode::LogRead,
        payload: (LogReadPayload { process_id, lines }).encode(),
    }
}

/// The request to bring a cluster to `target_count` instances.
pub fn scale_request(id: u32, payload: &ScalePayload) -> (r: Request)
    ensures
        r.id == id,
        r.command == CommandCode::ProcessScale,
        r.payload@ == payload.wire(),
{
    Request { id, command: CommandCode::ProcessScale, payload: payload.encode() }
}

/// A request that carries no payload: the list, a ping, save, resurrect,
/// shutdown.
pub fn bare_request(id: u32, command: CommandCode) -> (r: Request)
    ensures
        r.id == id,
        r.command == command,
        r.payload@ == Seq::<u8>::empty(),
{
    Request { id, command, payload: Vec::new() }
}

/// Reads the status of a response: `Okay` and `Streaming` pass; `Error`
/// becomes a protocol error with the payload as its message.
pub fn check_response(resp: &Response) -> (r: Result<(), VelosError>)
    ensures
        resp.status != ResponseStatus::Error ==> r is Ok,
        resp.status == ResponseStatus::Error ==> (r matches Err(e) && e.is_protocol(
            lossy_text(resp.payload@),
        )),
{
    match resp.status {
        ResponseStatus::Okay => Ok(()),
        ResponseStatus::Streaming => Ok(()),
        ResponseStatus::Error => Err(VelosError::ProtocolError(resp.error_message())),
    }
}

/// Tells whether a response answers the request with the given id.
pub fn answers(resp: &Response, request_id: u32) -> (r: bool)
    ensures
        r == (resp.id == request_id),
{
    resp.id == request_id
}

} // verus!
