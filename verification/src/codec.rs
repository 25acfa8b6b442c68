//! The daemon's side of the payloads: reading what clients send, writing
//! what clients read, and the snapshot of the process list that survives a
//! restart of the daemon. Each writer is the inverse of its reader.

use vstd::prelude::*;
use vstd::utf8::*;

use crate::error::VelosError;
use crate::protocol::{
    fault, parse_bool, parse_detail, parse_entries, parse_entry, parse_i32, parse_info,
    parse_infos, parse_log_entries, parse_process_list, parse_string, parse_u32, parse_u64,
    parse_u8, rest, val, views, BinaryReader, BinaryWriter, LogEntry, LogEntryView,
    Parsed, ProcessDetail, ProcessDetailView, ProcessInfo, ProcessInfoView, StartPayload,
};
use crate::text::byte_len;
use crate::wire::{
    bool_byte, i32_from_le, i32_le, lemma_i32_roundtrip, lemma_u32_roundtrip,
    lemma_u64_roundtrip, string_le, u32_le, u64_from_le, u64_le,
};

verus! {

// ------------------------------------------------------------------
// Reading back what was written, one primitive at a time
// ------------------------------------------------------------------
/// A byte that was written is read back, and what follows it is left.
pub proof fn lemma_parse_u8(v: u8, rest: Seq<u8>)
    ensures
        parse_u8(seq![v] + rest) == Ok::<(u8, Seq<u8>), Seq<char>>((v, rest)),
        (seq![v] + rest).len() > 0,
{
    reveal(parse_u8);
    assert((seq![v] + rest).skip(1) =~= rest);
}

/// A boolean that was written is read back.
pub proof fn lemma_parse_bool(v: bool, rest: Seq<u8>)
    ensures
        parse_bool(bool_byte(v) + rest) == Ok::<(bool, Seq<u8>), Seq<char>>((v, rest)),
        (bool_byte(v) + rest).len() > 0,
{
    reveal(parse_u8);
    assert((bool_byte(v) + rest).skip(1) =~= rest);
}

/// A `u32` that was written is read back.
pub proof fn lemma_parse_u32(v: u32, rest: Seq<u8>)
    ensures
        parse_u32(u32_le(v) + rest) == Ok::<(u32, Seq<u8>), Seq<char>>((v, rest)),
        (u32_le(v) + rest).len() > 0,
{
    reveal(parse_u32);
    let s = u32_le(v) + rest;
    lemma_u32_roundtrip(v);
    assert(s.skip(4) =~= rest);
    crate::wire::lemma_u32_prefix(s, u32_le(v));
}

/// An `i32` that was written is read back.
pub proof fn lemma_parse_i32(v: i32, rest: Seq<u8>)
    ensures
        parse_i32(i32_le(v) + rest) == Ok::<(i32, Seq<u8>), Seq<char>>((v, rest)),
        (i32_le(v) + rest).len() > 0,
{
    reveal(parse_i32);
    reveal(i32_le);
    reveal(i32_from_le);
    let bits = crate::wire::i32_bits(v);
    let s = i32_le(v) + rest;
    lemma_u32_roundtrip(bits);
    lemma_i32_roundtrip(v);
    assert(s.skip(4) =~= rest);
    crate::wire::lemma_u32_prefix(s, u32_le(bits));
}

/// A `u64` that was written is read back.
pub proof fn lemma_parse_u64(v: u64, rest: Seq<u8>)
    ensures
        parse_u64(u64_le(v) + rest) == Ok::<(u64, Seq<u8>), Seq<char>>((v, rest)),
        (u64_le(v) + rest).len() > 0,
{
    reveal(parse_u64);
    reveal(u64_le);
    reveal(u64_from_le);
    let s = u64_le(v) + rest;
    let lo = (v as int % 4294967296) as u32;
    let hi = (v as int / 4294967296) as u32;
    lemma_u32_roundtrip(lo);
    lemma_u32_roundtrip(hi);
    lemma_u64_roundtrip(v);
    assert(s.skip(8) =~= rest);
    crate::wire::lemma_u32_prefix(s, u32_le(lo));
    assert(s.skip(4)[0] == u32_le(hi)[0] && s.skip(4)[1] == u32_le(hi)[1] && s.skip(4)[2]
        == u32_le(hi)[2] && s.skip(4)[3] == u32_le(hi)[3]);
    crate::wire::lemma_u32_prefix(s.skip(4), u32_le(hi));
}

/// A string that was written is read back, provided that its length fits
/// the prefix.
pub proof fn lemma_parse_string(v: Seq<char>, rest: Seq<u8>)
    requires
        byte_len(v) <= u32::MAX,
    ensures
        parse_string(string_le(v) + rest) == Ok::<(Seq<char>, Seq<u8>), Seq<char>>((v, rest)),
        (string_le(v) + rest).len() > 0,
{
    broadcast use encode_utf8_valid_utf8, encode_utf8_decode_utf8;

    reveal(parse_string);
    reveal(string_le);
    let bytes = encode_utf8(v);
    let n = bytes.len() as u32;
    let s = string_le(v) + rest;
    assert(s =~= u32_le(n) + (bytes + rest));
    lemma_parse_u32(n, bytes + rest);
    assert((bytes + rest).take(n as int) =~= bytes);
    assert((bytes + rest).skip(n as int) =~= rest);
    assert(valid_utf8(encode_utf8(v)));
    assert(decode_utf8(encode_utf8(v)) == v);
}

/// Whatever is left, a field that is there is read.
pub proof fn lemma_or_default<T>(s: Seq<u8>, read: Parsed<T>, default: T)
    requires
        s.len() > 0,
    ensures
        or_default(s, read, default) == read,
{
    reveal(or_default);
}

// ------------------------------------------------------------------
// Start payloads
// ------------------------------------------------------------------
/// The mathematical content of a start payload as it travels: strings as
/// character sequences, an absent interpreter as the empty one.
pub struct StartView {
    pub name: Seq<char>,
    pub script: Seq<char>,
    pub cwd: Seq<char>,
    pub interpreter: Seq<char>,
    pub kill_timeout_ms: u32,
    pub autorestart: bool,
    pub max_restarts: i32,
    pub min_uptime_ms: u64,
    pub restart_delay_ms: u32,
    pub exp_backoff: bool,
    pub max_memory_restart: u64,
    pub watch: bool,
    pub watch_delay_ms: u32,
    pub watch_paths: Seq<char>,
    pub watch_ignore: Seq<char>,
    pub cron_restart: Seq<char>,
    pub wait_ready: bool,
    pub listen_timeout_ms: u32,
    pub shutdown_with_message: bool,
    pub instances: u32,
}

/// The content of a start payload.
pub open spec fn start_view(p: StartPayload) -> StartView {
    StartView {
        name: p.name@,
        script: p.script@,
        cwd: p.cwd@,
        interpreter: crate::protocol::text_or_empty(p.interpreter),
        kill_timeout_ms: p.kill_timeout_ms,
        autorestart: p.autorestart,
        max_restarts: p.max_restarts,
        min_uptime_ms: p.min_uptime_ms,
        restart_delay_ms: p.restart_delay_ms,
        exp_backoff: p.exp_backoff,
        max_memory_restart: p.max_memory_restart,
        watch: p.watch,
        watch_delay_ms: p.watch_delay_ms,
        watch_paths: p.watch_paths@,
        watch_ignore: p.watch_ignore@,
        cron_restart: p.cron_restart@,
        wait_ready: p.wait_ready,
        listen_timeout_ms: p.listen_timeout_ms,
        shutdown_with_message: p.shutdown_with_message,
        instances: p.instances,
    }
}

/// A field that is read if any bytes are left, and has a default if none
/// are.
#[verifier::opaque]
pub open spec fn or_default<T>(s: Seq<u8>, read: Parsed<T>, default: T) -> Parsed<T> {
    if s.len() == 0 {
        Ok((default, s))
    } else {
        read
    }
}

/// Reads a start payload. The name and the script must be there. Every
/// later field may be missing where the payload ends before it, and then
/// has its default: no working directory and no interpreter, a kill
/// timeout of 5000 ms, autorestart, at most 15 restarts, a minimum uptime
/// of 1000 ms, no restart delay, no backoff, no memory limit, no watching
/// with a debounce of 1000 ms and empty lists, no cron expression, no
/// waiting for readiness with a timeout of 8000 ms, no shutdown message,
/// one instance. A field that begins but does not end is an error.
pub open spec fn parse_start(s: Seq<u8>) -> Parsed<StartView> {
    let name = parse_string(s);
    let script = parse_string(rest(name));
    let cwd = or_default(
        rest(script),
        parse_string(rest(script)),
        Seq::<char>::empty(),
    );
    let interpreter = or_default(
        rest(cwd),
        parse_string(rest(cwd)),
        Seq::<char>::empty(),
    );
    let kill_timeout_ms = or_default(
        rest(interpreter),
        parse_u32(rest(interpreter)),
        5000u32,
    );
    let autorestart = or_default(
        rest(kill_timeout_ms),
        parse_bool(rest(kill_timeout_ms)),
        true,
    );
    let max_restarts = or_default(
        rest(autorestart),
        parse_i32(rest(autorestart)),
        15i32,
    );
    let min_uptime_ms = or_default(
        rest(max_restarts),
        parse_u64(rest(max_restarts)),
        1000u64,
    );
    let restart_delay_ms = or_default(
        rest(min_uptime_ms),
        parse_u32(rest(min_uptime_ms)),
        0u32,
    );
    let exp_backoff = or_default(
        rest(restart_delay_ms),
        parse_bool(rest(restart_delay_ms)),
        false,
    );
    let max_memory_restart = or_default(
        rest(exp_backoff),
        parse_u64(rest(exp_backoff)),
        0u64,
    );
    let watch = or_default(
        rest(max_memory_restart),
        parse_bool(rest(max_memory_restart)),
        false,
    );
    let watch_delay_ms = or_default(
        rest(watch),
        parse_u32(rest(watch)),
        1000u32,
    );
    let watch_paths = or_default(
        rest(watch_delay_ms),
        parse_string(rest(watch_delay_ms)),
        Seq::<char>::empty(),
    );
    let watch_ignore = or_default(
        rest(watch_paths),
        parse_string(rest(watch_paths)),
        Seq::<char>::empty(),
    );
    let cron_restart = or_default(
        rest(watch_ignore),
        parse_string(rest(watch_ignore)),
        Seq::<char>::empty(),
    );
    let wait_ready = or_default(
        rest(cron_restart),
        parse_bool(rest(cron_restart)),
        false,
    );
    let listen_timeout_ms = or_default(
        rest(wait_ready),
        parse_u32(rest(wait_ready)),
        8000u32,
    );
    let shutdown_with_message = or_default(
        rest(listen_timeout_ms),
        parse_bool(rest(listen_timeout_ms)),
        false,
    );
    let instances = or_default(
        rest(shutdown_with_message),
        parse_u32(rest(shutdown_with_message)),
        1u32,
    );
    if name is Err {
        Err(fault(name))
    } else if script is Err {
        Err(fault(script))
    } else if cwd is Err {
        Err(fault(cwd))
    } else if interpreter is Err {
        Err(fault(interpreter))
    } else if kill_timeout_ms is Err {
        Err(fault(kill_timeout_ms))
    } else if autorestart is Err {
        Err(fault(autorestart))
    } else if max_restarts is Err {
        Err(fault(max_restarts))
    } else if min_uptime_ms is Err {
        Err(fault(min_uptime_ms))
    } else if restart_delay_ms is Err {
        Err(fault(restart_delay_ms))
    } else if exp_backoff is Err {
        Err(fault(exp_backoff))
    } else if max_memory_restart is Err {
        Err(fault(max_memory_restart))
    } else if watch is Err {
        Err(fault(watch))
    } else if watch_delay_ms is Err {
        Err(fault(watch_delay_ms))
    } else if watch_paths is Err {
        Err(fault(watch_paths))
    } else if watch_ignore is Err {
        Err(fault(watch_ignore))
    } else if cron_restart is Err {
        Err(fault(cron_restart))
    } else if wait_ready is Err {
        Err(fault(wait_ready))
    } else if listen_timeout_ms is Err {
        Err(fault(listen_timeout_ms))
    } else if shutdown_with_message is Err {
        Err(fault(shutdown_with_message))
    } else if instances is Err {
        Err(fault(instances))
    } else {
        Ok(
            (
                StartView {
                    name: val(name),
                    script: val(script),
                    cwd: val(cwd),
                    interpreter: val(interpreter),
                    kill_timeout_ms: val(kill_timeout_ms),
                    autorestart: val(autorestart),
                    max_restarts: val(max_restarts),
                    min_uptime_ms: val(min_uptime_ms),
                    restart_delay_ms: val(restart_delay_ms),
                    exp_backoff: val(exp_backoff),
                    max_memory_restart: val(max_memory_restart),
                    watch: val(watch),
                    watch_delay_ms: val(watch_delay_ms),
                    watch_paths: val(watch_paths),
                    watch_ignore: val(watch_ignore),
                    cron_restart: val(cron_restart),
                    wait_ready: val(wait_ready),
                    listen_timeout_ms: val(listen_timeout_ms),
                    shutdown_with_message: val(shutdown_with_message),
                    instances: val(instances),
                },
                rest(instances),
            ),
        )
    }
}

/// The bytes of a start payload, followed by `rest`.
pub open spec fn start_wire(v: StartView, rest: Seq<u8>) -> Seq<u8> {
    string_le(v.name)
        + (string_le(v.script)
        + (string_le(v.cwd)
        + (string_le(v.interpreter)
        + (u32_le(v.kill_timeout_ms)
        + (bool_byte(v.autorestart)
        + (i32_le(v.max_restarts)
        + (u64_le(v.min_uptime_ms)
        + (u32_le(v.restart_delay_ms)
        + (bool_byte(v.exp_backoff)
        + (u64_le(v.max_memory_restart)
        + (bool_byte(v.watch)
        + (u32_le(v.watch_delay_ms)
        + (string_le(v.watch_paths)
        + (string_le(v.watch_ignore)
        + (string_le(v.cron_restart)
        + (bool_byte(v.wait_ready)
        + (u32_le(v.listen_timeout_ms)
        + (bool_byte(v.shutdown_with_message)
        + (u32_le(v.instances) + rest)))))))))))))))))))
}

/// Reads a `u32`, or takes the default at the end of the input.
fn read_u32_or(r: &mut BinaryReader, default: u32) -> (res: Result<u32, VelosError>)
    ensures
        match or_default(old(r)@, parse_u32(old(r)@), default) {
            Ok((v, rest)) => res matches Ok(x) && x == v && final(r)@ == rest,
            Err(m) => res matches Err(e) && e.is_protocol(m),
        },
{
    proof {
        reveal(or_default);
    }
    if r.remaining() == 0 {
        Ok(default)
    } else {
        r.read_u32()
    }
}

/// Reads an `i32`, or takes the default at the end of the input.
fn read_i32_or(r: &mut BinaryReader, default: i32) -> (res: Result<i32, VelosError>)
    ensures
        match or_default(old(r)@, parse_i32(old(r)@), default) {
            Ok((v, rest)) => res matches Ok(x) && x == v && final(r)@ == rest,
            Err(m) => res matches Err(e) && e.is_protocol(m),
        },
{
    proof {
        reveal(or_default);
    }
    if r.remaining() == 0 {
        Ok(default)
    } else {
        r.read_i32()
    }
}

/// Reads a `u64`, or takes the default at the end of the input.
fn read_u64_or(r: &mut BinaryReader, default: u64) -> (res: Result<u64, VelosError>)
    ensures
        match or_default(old(r)@, parse_u64(old(r)@), default) {
            Ok((v, rest)) => res matches Ok(x) && x == v && final(r)@ == rest,
            Err(m) => res matches Err(e) && e.is_protocol(m),
        },
{
    proof {
        reveal(or_default);
    }
    if r.remaining() == 0 {
        Ok(default)
    } else {
        r.read_u64()
    }
}

/// Reads a boolean, or takes the default at the end of the input.
fn read_bool_or(r: &mut BinaryReader, default: bool) -> (res: Result<bool, VelosError>)
    ensures
        match or_default(old(r)@, parse_bool(old(r)@), default) {
            Ok((v, rest)) => res matches Ok(x) && x == v && final(r)@ == rest,
            Err(m) => res matches Err(e) && e.is_protocol(m),
        },
{
    proof {
        reveal(or_default);
    }
    if r.remaining() == 0 {
        Ok(default)
    } else {
        Ok(r.read_u8()? != 0)
    }
}

/// Reads a string, or takes the empty string at the end of the input.
fn read_string_or_empty(r: &mut BinaryReader) -> (res: Result<String, VelosError>)
    ensures
        match or_default(old(r)@, parse_string(old(r)@), Seq::<char>::empty()) {
            Ok((v, rest)) => res matches Ok(x) && x@ == v && final(r)@ == rest,
            Err(m) => res matches Err(e) && e.is_protocol(m),
        },
{
    proof {
        reveal(or_default);
    }
    if r.remaining() == 0 {
        Ok(String::new())
    } else {
        r.read_string()
    }
}

/// Reads a start payload with `r`.
pub fn read_start(r: &mut BinaryReader) -> (res: Result<StartPayload, VelosError>)
    ensures
        match parse_start(old(r)@) {
            Ok((v, rest)) => res matches Ok(p) && start_view(p) == v && final(r)@ == rest,
            Err(m) => res matches Err(e) && e.is_protocol(m),
        },
{
    let name: String = r.read_string()?;
    let script: String = r.read_string()?;
    let cwd: String = read_string_or_empty(r)?;
    let interpreter: String = read_string_or_empty(r)?;
    let kill_timeout_ms: u32 = read_u32_or(r, 5000)?;
    let autorestart: bool = read_bool_or(r, true)?;
    let max_restarts: i32 = read_i32_or(r, 15)?;
    let min_uptime_ms: u64 = read_u64_or(r, 1000)?;
    let restart_delay_ms: u32 = read_u32_or(r, 0)?;
    let exp_backoff: bool = read_bool_or(r, false)?;
    let max_memory_restart: u64 = read_u64_or(r, 0)?;
    let watch: bool = read_bool_or(r, false)?;
    let watch_delay_ms: u32 = read_u32_or(r, 1000)?;
    let watch_paths: String = read_string_or_empty(r)?;
    let watch_ignore: String = read_string_or_empty(r)?;
    let cron_restart: String = read_string_or_empty(r)?;
    let wait_ready: bool = read_bool_or(r, false)?;
    let listen_timeout_ms: u32 = read_u32_or(r, 8000)?;
    let shutdown_with_message: bool = read_bool_or(r, false)?;
    let instances: u32 = read_u32_or(r, 1)?;
    let interpreter: Option<String> = if interpreter.as_str().is_empty() {
        assert(interpreter@ =~= Seq::<char>::empty());
        None
    } else {
        Some(interpreter)
    };
    Ok(
        StartPayload {
            name,
            script,
            cwd,
            interpreter,
            kill_timeout_ms,
            autorestart,
            max_restarts,
            min_uptime_ms,
            restart_delay_ms,
            exp_backoff,
            max_memory_restart,
            watch,
            watch_delay_ms,
            watch_paths,
            watch_ignore,
            cron_restart,
            wait_ready,
            listen_timeout_ms,
            shutdown_with_message,
            instances,
        },
    )
}

impl StartPayload {
    /// Decodes a start payload; bytes after the last field are ignored.
    pub fn decode(data: &[u8]) -> (r: Result<StartPayload, VelosError>)
        ensures
            match parse_start(data@) {
                Ok((v, _)) => r matches Ok(p) && start_view(p) == v,
                Err(m) => r matches Err(e) && e.is_protocol(m),
            },
    {
        let mut r = BinaryReader::new(data);
        read_start(&mut r)
    }
}

/// Whether the strings of a start payload fit their length prefixes.
pub open spec fn start_fits(v: StartView) -> bool {
    byte_len(v.name) <= u32::MAX
    && byte_len(v.script) <= u32::MAX
    && byte_len(v.cwd) <= u32::MAX
    && byte_len(v.interpreter) <= u32::MAX
    && byte_len(v.watch_paths) <= u32::MAX
    && byte_len(v.watch_ignore) <= u32::MAX
    && byte_len(v.cron_restart) <= u32::MAX
}

/// Concatenation may be bracketed either way.
pub proof fn lemma_concat_assoc(a: Seq<u8>, b: Seq<u8>, c: Seq<u8>)
    ensures
        (a + b) + c == a + (b + c),
{
    assert((a + b) + c =~= a + (b + c));
}

/// Appending nothing changes nothing.
pub proof fn lemma_concat_empty(a: Seq<u8>)
    ensures
        a + Seq::<u8>::empty() == a,
{
    assert(a + Seq::<u8>::empty() =~= a);
}

/// Pushing a byte is appending it.
pub proof fn lemma_push_is_concat(a: Seq<u8>, b: u8)
    ensures
        a.push(b) == a + seq![b],
{
    assert(a.push(b) =~= a + seq![b]);
}

/// What `StartPayload::encode` writes is its fields one after the other.
pub proof fn lemma_start_wire(p: StartPayload)
    ensures
        p.wire() == start_wire(start_view(p), Seq::empty()),
{
    // The fields from the first to the k-th, bracketed to the left, and
    // from the k-th to the last, bracketed to the right.
    let h1 = string_le(p.name@);
    let h2 = h1 + string_le(p.script@);
    let h3 = h2 + string_le(p.cwd@);
    let h4 = h3 + string_le(crate::protocol::text_or_empty(p.interpreter));
    let h5 = h4 + u32_le(p.kill_timeout_ms);
    let h6 = h5 + bool_byte(p.autorestart);
    let h7 = h6 + i32_le(p.max_restarts);
    let h8 = h7 + u64_le(p.min_uptime_ms);
    let h9 = h8 + u32_le(p.restart_delay_ms);
    let h10 = h9 + bool_byte(p.exp_backoff);
    let h11 = h10 + u64_le(p.max_memory_restart);
    let h12 = h11 + bool_byte(p.watch);
    let h13 = h12 + u32_le(p.watch_delay_ms);
    let h14 = h13 + string_le(p.watch_paths@);
    let h15 = h14 + string_le(p.watch_ignore@);
    let h16 = h15 + string_le(p.cron_restart@);
    let h17 = h16 + bool_byte(p.wait_ready);
    let h18 = h17 + u32_le(p.listen_timeout_ms);
    let h19 = h18 + bool_byte(p.shutdown_with_message);
    let h20 = h19 + u32_le(p.instances);
    let t21 = Seq::<u8>::empty();
    let t20 = u32_le(p.instances) + t21;
    let t19 = bool_byte(p.shutdown_with_message) + t20;
    let t18 = u32_le(p.listen_timeout_ms) + t19;
    let t17 = bool_byte(p.wait_ready) + t18;
    let t16 = string_le(p.cron_restart@) + t17;
    let t15 = string_le(p.watch_ignore@) + t16;
    let t14 = string_le(p.watch_paths@) + t15;
    let t13 = u32_le(p.watch_delay_ms) + t14;
    let t12 = bool_byte(p.watch) + t13;
    let t11 = u64_le(p.max_memory_restart) + t12;
    let t10 = bool_byte(p.exp_backoff) + t11;
    let t9 = u32_le(p.restart_delay_ms) + t10;
    let t8 = u64_le(p.min_uptime_ms) + t9;
    let t7 = i32_le(p.max_restarts) + t8;
    let t6 = bool_byte(p.autorestart) + t7;
    let t5 = u32_le(p.kill_timeout_ms) + t6;
    let t4 = string_le(crate::protocol::text_or_empty(p.interpreter)) + t5;
    let t3 = string_le(p.cwd@) + t4;
    let t2 = string_le(p.script@) + t3;
    let t1 = string_le(p.name@) + t2;
    lemma_concat_empty(h20);
    lemma_concat_assoc(h19, u32_le(p.instances), t21);
    lemma_concat_assoc(h18, bool_byte(p.shutdown_with_message), t20);
    lemma_concat_assoc(h17, u32_le(p.listen_timeout_ms), t19);
    lemma_concat_assoc(h16, bool_byte(p.wait_ready), t18);
    lemma_concat_assoc(h15, string_le(p.cron_restart@), t17);
    lemma_concat_assoc(h14, string_le(p.watch_ignore@), t16);
    lemma_concat_assoc(h13, string_le(p.watch_paths@), t15);
    lemma_concat_assoc(h12, u32_le(p.watch_delay_ms), t14);
    lemma_concat_assoc(h11, bool_byte(p.watch), t13);
    lemma_concat_assoc(h10, u64_le(p.max_memory_restart), t12);
    lemma_concat_assoc(h9, bool_byte(p.exp_backoff), t11);
    lemma_concat_assoc(h8, u32_le(p.restart_delay_ms), t10);
    lemma_concat_assoc(h7, u64_le(p.min_uptime_ms), t9);
    lemma_concat_assoc(h6, i32_le(p.max_restarts), t8);
    lemma_concat_assoc(h5, bool_byte(p.autorestart), t7);
    lemma_concat_assoc(h4, u32_le(p.kill_timeout_ms), t6);
    lemma_concat_assoc(h3, string_le(crate::protocol::text_or_empty(p.interpreter)), t5);
    lemma_concat_assoc(h2, string_le(p.cwd@), t4);
    lemma_concat_assoc(h1, string_le(p.script@), t3);
}

/// A start payload that was written is read back: all twenty fields, with
/// what follows the payload left over, provided that its strings fit their
/// length prefixes.
pub proof fn lemma_start_roundtrip(v: StartView, rest: Seq<u8>)
    requires
        start_fits(v),
    ensures
        parse_start(start_wire(v, rest)) == Ok::<(StartView, Seq<u8>), Seq<char>>((v, rest)),
{
    let t20 = rest;
    let t19 = u32_le(v.instances) + t20;
    let t18 = bool_byte(v.shutdown_with_message) + t19;
    let t17 = u32_le(v.listen_timeout_ms) + t18;
    let t16 = bool_byte(v.wait_ready) + t17;
    let t15 = string_le(v.cron_restart) + t16;
    let t14 = string_le(v.watch_ignore) + t15;
    let t13 = string_le(v.watch_paths) + t14;
    let t12 = u32_le(v.watch_delay_ms) + t13;
    let t11 = bool_byte(v.watch) + t12;
    let t10 = u64_le(v.max_memory_restart) + t11;
    let t9 = bool_byte(v.exp_backoff) + t10;
    let t8 = u32_le(v.restart_delay_ms) + t9;
    let t7 = u64_le(v.min_uptime_ms) + t8;
    let t6 = i32_le(v.max_restarts) + t7;
    let t5 = bool_byte(v.autorestart) + t6;
    let t4 = u32_le(v.kill_timeout_ms) + t5;
    let t3 = string_le(v.interpreter) + t4;
    let t2 = string_le(v.cwd) + t3;
    let t1 = string_le(v.script) + t2;
    lemma_parse_string(v.name, t1);
    lemma_parse_string(v.script, t2);
    lemma_parse_string(v.cwd, t3);
    lemma_or_default(t2, parse_string(t2), Seq::<char>::empty());
    lemma_parse_string(v.interpreter, t4);
    lemma_or_default(t3, parse_string(t3), Seq::<char>::empty());
    lemma_parse_u32(v.kill_timeout_ms, t5);
    lemma_or_default(t4, parse_u32(t4), 5000u32);
    lemma_parse_bool(v.autorestart, t6);
    lemma_or_default(t5, parse_bool(t5), true);
    lemma_parse_i32(v.max_restarts, t7);
    lemma_or_default(t6, parse_i32(t6), 15i32);
    lemma_parse_u64(v.min_uptime_ms, t8);
    lemma_or_default(t7, parse_u64(t7), 1000u64);
    lemma_parse_u32(v.restart_delay_ms, t9);
    lemma_or_default(t8, parse_u32(t8), 0u32);
    lemma_parse_bool(v.exp_backoff, t10);
    lemma_or_default(t9, parse_bool(t9), false);
    lemma_parse_u64(v.max_memory_restart, t11);
    lemma_or_default(t10, parse_u64(t10), 0u64);
    lemma_parse_bool(v.watch, t12);
    lemma_or_default(t11, parse_bool(t11), false);
    lemma_parse_u32(v.watch_delay_ms, t13);
    lemma_or_default(t12, parse_u32(t12), 1000u32);
    lemma_parse_string(v.watch_paths, t14);
    lemma_or_default(t13, parse_string(t13), Seq::<char>::empty());
    lemma_parse_string(v.watch_ignore, t15);
    lemma_or_default(t14, parse_string(t14), Seq::<char>::empty());
    lemma_parse_string(v.cron_restart, t16);
    lemma_or_default(t15, parse_string(t15), Seq::<char>::empty());
    lemma_parse_bool(v.wait_ready, t17);
    lemma_or_default(t16, parse_bool(t16), false);
    lemma_parse_u32(v.listen_timeout_ms, t18);
    lemma_or_default(t17, parse_u32(t17), 8000u32);
    lemma_parse_bool(v.shutdown_with_message, t19);
    lemma_or_default(t18, parse_bool(t18), false);
    lemma_parse_u32(v.instances, t20);
    lemma_or_default(t19, parse_u32(t19), 1u32);
}

/// Encoding a payload whose strings fit and decoding the bytes gives the
/// payload back.
pub proof fn lemma_start_encode_decode(p: StartPayload)
    requires
        start_fits(start_view(p)),
    ensures
        parse_start(p.wire()) == Ok::<(StartView, Seq<u8>), Seq<char>>(
            (start_view(p), Seq::empty()),
        ),
{
    lemma_start_wire(p);
    lemma_start_roundtrip(start_view(p), Seq::empty());
}

// ------------------------------------------------------------------
// Replies
// ------------------------------------------------------------------
/// The bytes of an entry of the process list, followed by `rest`.
pub open spec fn info_wire(v: ProcessInfoView, rest: Seq<u8>) -> Seq<u8> {
    u32_le(v.id)
        + (string_le(v.name)
        + (u32_le(v.pid)
        + (seq![v.status]
        + (u64_le(v.memory_bytes)
        + (u64_le(v.uptime_ms)
        + (u32_le(v.restart_count) + rest))))))
}

/// An entry of the process list that was written is read back, provided that
/// its strings fit their length prefixes.
pub proof fn lemma_info_roundtrip(v: ProcessInfoView, rest: Seq<u8>)
    requires
        byte_len(v.name) <= u32::MAX,
    ensures
        parse_info(info_wire(v, rest)) == Ok::<(ProcessInfoView, Seq<u8>), Seq<char>>(
            (v, rest),
        ),
{
    let t7 = rest;
    let t6 = u32_le(v.restart_count) + t7;
    let t5 = u64_le(v.uptime_ms) + t6;
    let t4 = u64_le(v.memory_bytes) + t5;
    let t3 = seq![v.status] + t4;
    let t2 = u32_le(v.pid) + t3;
    let t1 = string_le(v.name) + t2;
    lemma_parse_u32(v.id, t1);
    lemma_parse_string(v.name, t2);
    lemma_parse_u32(v.pid, t3);
    lemma_parse_u8(v.status, t4);
    lemma_parse_u64(v.memory_bytes, t5);
    lemma_parse_u64(v.uptime_ms, t6);
    lemma_parse_u32(v.restart_count, t7);
}

/// Appends an entry of the process list.
pub fn write_info(w: &mut BinaryWriter, x: &ProcessInfo)
    ensures
        final(w).buf@ == old(w).buf@ + info_wire(x@, Seq::empty()),
{
    let ghost b0 = w.buf@;
    w.write_u32(x.id);
    let ghost b1 = w.buf@;
    w.write_string(x.name.as_str());
    let ghost b2 = w.buf@;
    w.write_u32(x.pid);
    let ghost b3 = w.buf@;
    w.write_u8(x.status);
    let ghost b4 = w.buf@;
    w.write_u64(x.memory_bytes);
    let ghost b5 = w.buf@;
    w.write_u64(x.uptime_ms);
    let ghost b6 = w.buf@;
    w.write_u32(x.restart_count);
    let ghost b7 = w.buf@;
    proof {
        let v = x@;
        let t8 = Seq::<u8>::empty();
        let t7 = u32_le(v.restart_count) + t8;
        let t6 = u64_le(v.uptime_ms) + t7;
        let t5 = u64_le(v.memory_bytes) + t6;
        let t4 = seq![v.status] + t5;
        let t3 = u32_le(v.pid) + t4;
        let t2 = string_le(v.name) + t3;
        let t1 = u32_le(v.id) + t2;
        lemma_concat_empty(b7);
        lemma_concat_assoc(b6, u32_le(v.restart_count), t8);
        lemma_concat_assoc(b5, u64_le(v.uptime_ms), t7);
        lemma_concat_assoc(b4, u64_le(v.memory_bytes), t6);
        lemma_push_is_concat(b3, v.status);
        lemma_concat_assoc(b3, seq![v.status], t5);
        lemma_concat_assoc(b2, u32_le(v.pid), t4);
        lemma_concat_assoc(b1, string_le(v.name), t3);
        lemma_concat_assoc(b0, u32_le(v.id), t2);
    }
}

/// The bytes of a process detail, followed by `rest`.
pub open spec fn detail_wire(v: ProcessDetailView, rest: Seq<u8>) -> Seq<u8> {
    u32_le(v.id)
        + (string_le(v.name)
        + (u32_le(v.pid)
        + (seq![v.status]
        + (u64_le(v.memory_bytes)
        + (u64_le(v.uptime_ms)
        + (u32_le(v.restart_count)
        + (u32_le(v.consecutive_crashes)
        + (u64_le(v.last_restart_ms)
        + (string_le(v.script)
        + (string_le(v.cwd)
        + (string_le(v.interpreter)
        + (u32_le(v.kill_timeout_ms)
        + (bool_byte(v.autorestart)
        + (i32_le(v.max_restarts)
        + (u64_le(v.min_uptime_ms)
        + (u32_le(v.restart_delay_ms)
        + (bool_byte(v.exp_backoff)
        + (u64_le(v.max_memory_restart)
        + (bool_byte(v.watch)
        + (string_le(v.cron_restart)
        + (bool_byte(v.wait_ready)
        + (bool_byte(v.shutdown_with_message) + rest))))))))))))))))))))))
}

/// A process detail that was written is read back, provided that
/// its strings fit their length prefixes.
pub proof fn lemma_detail_roundtrip(v: ProcessDetailView, rest: Seq<u8>)
    requires
        byte_len(v.name) <= u32::MAX,
        byte_len(v.script) <= u32::MAX,
        byte_len(v.cwd) <= u32::MAX,
        byte_len(v.interpreter) <= u32::MAX,
        byte_len(v.cron_restart) <= u32::MAX,
    ensures
        parse_detail(detail_wire(v, rest)) == Ok::<(ProcessDetailView, Seq<u8>), Seq<char>>(
            (v, rest),
        ),
{
    let t23 = rest;
    let t22 = bool_byte(v.shutdown_with_message) + t23;
    let t21 = bool_byte(v.wait_ready) + t22;
    let t20 = string_le(v.cron_restart) + t21;
    let t19 = bool_byte(v.watch) + t20;
    let t18 = u64_le(v.max_memory_restart) + t19;
    let t17 = bool_byte(v.exp_backoff) + t18;
    let t16 = u32_le(v.restart_delay_ms) + t17;
    let t15 = u64_le(v.min_uptime_ms) + t16;
    let t14 = i32_le(v.max_restarts) + t15;
    let t13 = bool_byte(v.autorestart) + t14;
    let t12 = u32_le(v.kill_timeout_ms) + t13;
    let t11 = string_le(v.interpreter) + t12;
    let t10 = string_le(v.cwd) + t11;
    let t9 = string_le(v.script) + t10;
    let t8 = u64_le(v.last_restart_ms) + t9;
    let t7 = u32_le(v.consecutive_crashes) + t8;
    let t6 = u32_le(v.restart_count) + t7;
    let t5 = u64_le(v.uptime_ms) + t6;
    let t4 = u64_le(v.memory_bytes) + t5;
    let t3 = seq![v.status] + t4;
    let t2 = u32_le(v.pid) + t3;
    let t1 = string_le(v.name) + t2;
    lemma_parse_u32(v.id, t1);
    lemma_parse_string(v.name, t2);
    lemma_parse_u32(v.pid, t3);
    lemma_parse_u8(v.status, t4);
    lemma_parse_u64(v.memory_bytes, t5);
    lemma_parse_u64(v.uptime_ms, t6);
    lemma_parse_u32(v.restart_count, t7);
    lemma_parse_u32(v.consecutive_crashes, t8);
    lemma_parse_u64(v.last_restart_ms, t9);
    lemma_parse_string(v.script, t10);
    lemma_parse_string(v.cwd, t11);
    lemma_parse_string(v.interpreter, t12);
    lemma_parse_u32(v.kill_timeout_ms, t13);
    lemma_parse_bool(v.autorestart, t14);
    lemma_parse_i32(v.max_restarts, t15);
    lemma_parse_u64(v.min_uptime_ms, t16);
    lemma_parse_u32(v.restart_delay_ms, t17);
    lemma_parse_bool(v.exp_backoff, t18);
    lemma_parse_u64(v.max_memory_restart, t19);
    lemma_parse_bool(v.watch, t20);
    lemma_parse_string(v.cron_restart, t21);
    lemma_parse_bool(v.wait_ready, t22);
    lemma_parse_bool(v.shutdown_with_message, t23);
}

/// Appends a process detail.
pub fn write_detail(w: &mut BinaryWriter, x: &ProcessDetail)
    ensures
        final(w).buf@ == old(w).buf@ + detail_wire(x@, Seq::empty()),
{
    let ghost b0 = w.buf@;
    w.write_u32(x.id);
    let ghost b1 = w.buf@;
    w.write_string(x.name.as_str());
    let ghost b2 = w.buf@;
    w.write_u32(x.pid);
    let ghost b3 = w.buf@;
    w.write_u8(x.status);
    let ghost b4 = w.buf@;
    w.write_u64(x.memory_bytes);
    let ghost b5 = w.buf@;
    w.write_u64(x.uptime_ms);
    let ghost b6 = w.buf@;
    w.write_u32(x.restart_count);
    let ghost b7 = w.buf@;
    w.write_u32(x.consecutive_crashes);
    let ghost b8 = w.buf@;
    w.write_u64(x.last_restart_ms);
    let ghost b9 = w.buf@;
    w.write_string(x.script.as_str());
    let ghost b10 = w.buf@;
    w.write_string(x.cwd.as_str());
    let ghost b11 = w.buf@;
    w.write_string(x.interpreter.as_str());
    let ghost b12 = w.buf@;
    w.write_u32(x.kill_timeout_ms);
    let ghost b13 = w.buf@;
    w.write_u8(if x.autorestart {
        1
    } else {
        0
    });
    let ghost b14 = w.buf@;
    w.write_i32(x.max_restarts);
    let ghost b15 = w.buf@;
    w.write_u64(x.min_uptime_ms);
    let ghost b16 = w.buf@;
    w.write_u32(x.restart_delay_ms);
    let ghost b17 = w.buf@;
    w.write_u8(if x.exp_backoff {
        1
    } else {
        0
    });
    let ghost b18 = w.buf@;
    w.write_u64(x.max_memory_restart);
    let ghost b19 = w.buf@;
    w.write_u8(if x.watch {
        1
    } else {
        0
    });
    let ghost b20 = w.buf@;
    w.write_string(x.cron_restart.as_str());
    let ghost b21 = w.buf@;
    w.write_u8(if x.wait_ready {
        1
    } else {
        0
    });
    let ghost b22 = w.buf@;
    w.write_u8(if x.shutdown_with_message {
        1
    } else {
        0
    });
    let ghost b23 = w.buf@;
    proof {
        let v = x@;
        let t24 = Seq::<u8>::empty();
        let t23 = bool_byte(v.shutdown_with_message) + t24;
        let t22 = bool_byte(v.wait_ready) + t23;
        let t21 = string_le(v.cron_restart) + t22;
        let t20 = bool_byte(v.watch) + t21;
        let t19 = u64_le(v.max_memory_restart) + t20;
        let t18 = bool_byte(v.exp_backoff) + t19;
        let t17 = u32_le(v.restart_delay_ms) + t18;
        let t16 = u64_le(v.min_uptime_ms) + t17;
        let t15 = i32_le(v.max_restarts) + t16;
        let t14 = bool_byte(v.autorestart) + t15;
        let t13 = u32_le(v.kill_timeout_ms) + t14;
        let t12 = string_le(v.interpreter) + t13;
        let t11 = string_le(v.cwd) + t12;
        let t10 = string_le(v.script) + t11;
        let t9 = u64_le(v.last_restart_ms) + t10;
        let t8 = u32_le(v.consecutive_crashes) + t9;
        let t7 = u32_le(v.restart_count) + t8;
        let t6 = u64_le(v.uptime_ms) + t7;
        let t5 = u64_le(v.memory_bytes) + t6;
        let t4 = seq![v.status] + t5;
        let t3 = u32_le(v.pid) + t4;
        let t2 = string_le(v.name) + t3;
        let t1 = u32_le(v.id) + t2;
        lemma_concat_empty(b23);
        lemma_push_is_concat(b22, bool_byte(v.shutdown_with_message)[0]);
        assert(bool_byte(v.shutdown_with_message) =~= seq![bool_byte(v.shutdown_with_message)[0]]);
        lemma_concat_assoc(b22, bool_byte(v.shutdown_with_message), t24);
        lemma_push_is_concat(b21, bool_byte(v.wait_ready)[0]);
        assert(bool_byte(v.wait_ready) =~= seq![bool_byte(v.wait_ready)[0]]);
        lemma_concat_assoc(b21, bool_byte(v.wait_ready), t23);
        lemma_concat_assoc(b20, string_le(v.cron_restart), t22);
        lemma_push_is_concat(b19, bool_byte(v.watch)[0]);
        assert(bool_byte(v.watch) =~= seq![bool_byte(v.watch)[0]]);
        lemma_concat_assoc(b19, bool_byte(v.watch), t21);
        lemma_concat_assoc(b18, u64_le(v.max_memory_restart), t20);
        lemma_push_is_concat(b17, bool_byte(v.exp_backoff)[0]);
        assert(bool_byte(v.exp_backoff) =~= seq![bool_byte(v.exp_backoff)[0]]);
        lemma_concat_assoc(b17, bool_byte(v.exp_backoff), t19);
        lemma_concat_assoc(b16, u32_le(v.restart_delay_ms), t18);
        lemma_concat_assoc(b15, u64_le(v.min_uptime_ms), t17);
        lemma_concat_assoc(b14, i32_le(v.max_restarts), t16);
        lemma_push_is_concat(b13, bool_byte(v.autorestart)[0]);
        assert(bool_byte(v.autorestart) =~= seq![bool_byte(v.autorestart)[0]]);
        lemma_concat_assoc(b13, bool_byte(v.autorestart), t15);
        lemma_concat_assoc(b12, u32_le(v.kill_timeout_ms), t14);
        lemma_concat_assoc(b11, string_le(v.interpreter), t13);
        lemma_concat_assoc(b10, string_le(v.cwd), t12);
        lemma_concat_assoc(b9, string_le(v.script), t11);
        lemma_concat_assoc(b8, u64_le(v.last_restart_ms), t10);
        lemma_concat_assoc(b7, u32_le(v.consecutive_crashes), t9);
        lemma_concat_assoc(b6, u32_le(v.restart_count), t8);
        lemma_concat_assoc(b5, u64_le(v.uptime_ms), t7);
        lemma_concat_assoc(b4, u64_le(v.memory_bytes), t6);
        lemma_push_is_concat(b3, v.status);
        lemma_concat_assoc(b3, seq![v.status], t5);
        lemma_concat_assoc(b2, u32_le(v.pid), t4);
        lemma_concat_assoc(b1, string_le(v.name), t3);
        lemma_concat_assoc(b0, u32_le(v.id), t2);
    }
}

/// The bytes of a log entry, followed by `rest`.
pub open spec fn entry_wire(v: LogEntryView, rest: Seq<u8>) -> Seq<u8> {
    u64_le(v.timestamp_ms)
        + (seq![v.level]
        + (seq![v.stream]
        + (string_le(v.message) + rest)))
}

/// A log entry that was written is read back, provided that
/// its strings fit their length prefixes.
pub proof fn lemma_entry_roundtrip(v: LogEntryView, rest: Seq<u8>)
    requires
        byte_len(v.message) <= u32::MAX,
    ensures
        parse_entry(entry_wire(v, rest)) == Ok::<(LogEntryView, Seq<u8>), Seq<char>>(
            (v, rest),
        ),
{
    let t4 = rest;
    let t3 = string_le(v.message) + t4;
    let t2 = seq![v.stream] + t3;
    let t1 = seq![v.level] + t2;
    lemma_parse_u64(v.timestamp_ms, t1);
    lemma_parse_u8(v.level, t2);
    lemma_parse_u8(v.stream, t3);
    lemma_parse_string(v.message, t4);
}

/// Appends a log entry.
pub fn write_entry(w: &mut BinaryWriter, x: &LogEntry)
    ensures
        final(w).buf@ == old(w).buf@ + entry_wire(x@, Seq::empty()),
{
    let ghost b0 = w.buf@;
    w.write_u64(x.timestamp_ms);
    let ghost b1 = w.buf@;
    w.write_u8(x.level);
    let ghost b2 = w.buf@;
    w.write_u8(x.stream);
    let ghost b3 = w.buf@;
    w.write_string(x.message.as_str());
    let ghost b4 = w.buf@;
    proof {
        let v = x@;
        let t5 = Seq::<u8>::empty();
        let t4 = string_le(v.message) + t5;
        let t3 = seq![v.stream] + t4;
        let t2 = seq![v.level] + t3;
        let t1 = u64_le(v.timestamp_ms) + t2;
        lemma_concat_empty(b4);
        lemma_concat_assoc(b3, string_le(v.message), t5);
        lemma_push_is_concat(b2, v.stream);
        lemma_concat_assoc(b2, seq![v.stream], t4);
        lemma_push_is_concat(b1, v.level);
        lemma_concat_assoc(b1, seq![v.level], t3);
        lemma_concat_assoc(b0, u64_le(v.timestamp_ms), t2);
    }
}

/// What follows an item can be written after it or with it.
proof fn lemma_info_wire_append(v: ProcessInfoView, rest: Seq<u8>, more: Seq<u8>)
    ensures
        info_wire(v, rest) + more == info_wire(v, rest + more),
{
    assert(info_wire(v, rest) + more =~= info_wire(v, rest + more));
}

/// What follows an item can be written after it or with it.
proof fn lemma_entry_wire_append(v: LogEntryView, rest: Seq<u8>, more: Seq<u8>)
    ensures
        entry_wire(v, rest) + more == entry_wire(v, rest + more),
{
    assert(entry_wire(v, rest) + more =~= entry_wire(v, rest + more));
}

/// The bytes of entries of the process list, one after the other, followed by `rest`.
pub open spec fn infos_wire(items: Seq<ProcessInfoView>, rest: Seq<u8>) -> Seq<u8>
    decreases items.len(),
{
    if items.len() == 0 {
        rest
    } else {
        info_wire(items[0], infos_wire(items.drop_first(), rest))
    }
}

/// Whether the strings of all of entries of the process list fit their length prefixes.
pub open spec fn infos_fit(items: Seq<ProcessInfoView>) -> bool {
    forall|i: int| 0 <= i < items.len() ==> byte_len((#[trigger] items[i]).name) <= u32::MAX
}

/// Entries of the process list that were written one after the other are read back.
pub proof fn lemma_parse_infos_roundtrip(items: Seq<ProcessInfoView>, rest: Seq<u8>)
    requires
        infos_fit(items),
    ensures
        parse_infos(infos_wire(items, rest), items.len()) == Ok::<
            Seq<ProcessInfoView>,
            Seq<char>,
        >(items),
    decreases items.len(),
{
    if items.len() > 0 {
        let tail = items.drop_first();
        assert(infos_fit(tail)) by {
            assert forall|i: int| 0 <= i < tail.len() implies
                byte_len((#[trigger] tail[i]).name) <= u32::MAX by {
                assert(tail[i] == items[i + 1]);
            }
        }
        assert(byte_len(items[0].name) <= u32::MAX);
        lemma_info_roundtrip(items[0], infos_wire(tail, rest));
        lemma_parse_infos_roundtrip(tail, rest);
        assert(seq![items[0]] + tail =~= items);
        assert(infos_wire(items, rest) == info_wire(items[0], infos_wire(tail, rest)));
        assert(parse_infos(infos_wire(tail, rest), tail.len()) == Ok::<
            Seq<ProcessInfoView>,
            Seq<char>,
        >(tail));
        assert((items.len() - 1) as nat == tail.len());
    } else {
        assert(items =~= Seq::<ProcessInfoView>::empty());
    }
}

/// Appending one more of entries of the process list to the bytes of some is the bytes of all.
proof fn lemma_infos_wire_push(items: Seq<ProcessInfoView>, last: ProcessInfoView)
    ensures
        infos_wire(items, info_wire(last, Seq::empty())) == infos_wire(
            items.push(last),
            Seq::empty(),
        ),
    decreases items.len(),
{
    let all = items.push(last);
    if items.len() == 0 {
        assert(all.drop_first() =~= Seq::<ProcessInfoView>::empty());
        assert(all[0] == last);
        assert(infos_wire(all.drop_first(), Seq::empty()) == Seq::<u8>::empty());
    } else {
        lemma_infos_wire_push(items.drop_first(), last);
        assert(all.drop_first() =~= items.drop_first().push(last));
        assert(all[0] == items[0]);
    }
}

/// The bytes of some of entries of the process list followed by more bytes are the bytes of
/// the items with those bytes after them.
proof fn lemma_infos_wire_append(items: Seq<ProcessInfoView>, more: Seq<u8>)
    ensures
        infos_wire(items, Seq::empty()) + more == infos_wire(items, more),
    decreases items.len(),
{
    if items.len() == 0 {
        assert(Seq::<u8>::empty() + more =~= more);
    } else {
        lemma_infos_wire_append(items.drop_first(), more);
        lemma_info_wire_append(items[0], infos_wire(items.drop_first(), Seq::empty()), more);
    }
}

/// The bytes of log entries, one after the other, followed by `rest`.
pub open spec fn entries_wire(items: Seq<LogEntryView>, rest: Seq<u8>) -> Seq<u8>
    decreases items.len(),
{
    if items.len() == 0 {
        rest
    } else {
        entry_wire(items[0], entries_wire(items.drop_first(), rest))
    }
}

/// Whether the strings of all of log entries fit their length prefixes.
pub open spec fn entries_fit(items: Seq<LogEntryView>) -> bool {
    forall|i: int| 0 <= i < items.len() ==> byte_len((#[trigger] items[i]).message) <= u32::MAX
}

/// Log entries that were written one after the other are read back.
pub proof fn lemma_parse_entries_roundtrip(items: Seq<LogEntryView>, rest: Seq<u8>)
    requires
        entries_fit(items),
    ensures
        parse_entries(entries_wire(items, rest), items.len()) == Ok::<
            Seq<LogEntryView>,
            Seq<char>,
        >(items),
    decreases items.len(),
{
    if items.len() > 0 {
        let tail = items.drop_first();
        assert(entries_fit(tail)) by {
            assert forall|i: int| 0 <= i < tail.len() implies
                byte_len((#[trigger] tail[i]).message) <= u32::MAX by {
                assert(tail[i] == items[i + 1]);
            }
        }
        assert(byte_len(items[0].message) <= u32::MAX);
        lemma_entry_roundtrip(items[0], entries_wire(tail, rest));
        lemma_parse_entries_roundtrip(tail, rest);
        assert(seq![items[0]] + tail =~= items);
        assert(entries_wire(items, rest) == entry_wire(items[0], entries_wire(tail, rest)));
        assert(parse_entries(entries_wire(tail, rest), tail.len()) == Ok::<
            Seq<LogEntryView>,
            Seq<char>,
        >(tail));
        assert((items.len() - 1) as nat == tail.len());
    } else {
        assert(items =~= Seq::<LogEntryView>::empty());
    }
}

/// Appending one more of log entries to the bytes of some is the bytes of all.
proof fn lemma_entries_wire_push(items: Seq<LogEntryView>, last: LogEntryView)
    ensures
        entries_wire(items, entry_wire(last, Seq::empty())) == entries_wire(
            items.push(last),
            Seq::empty(),
        ),
    decreases items.len(),
{
    let all = items.push(last);
    if items.len() == 0 {
        assert(all.drop_first() =~= Seq::<LogEntryView>::empty());
        assert(all[0] == last);
        assert(entries_wire(all.drop_first(), Seq::empty()) == Seq::<u8>::empty());
    } else {
        lemma_entries_wire_push(items.drop_first(), last);
        assert(all.drop_first() =~= items.drop_first().push(last));
        assert(all[0] == items[0]);
    }
}

/// The bytes of some of log entries followed by more bytes are the bytes of
/// the items with those bytes after them.
proof fn lemma_entries_wire_append(items: Seq<LogEntryView>, more: Seq<u8>)
    ensures
        entries_wire(items, Seq::empty()) + more == entries_wire(items, more),
    decreases items.len(),
{
    if items.len() == 0 {
        assert(Seq::<u8>::empty() + more =~= more);
    } else {
        lemma_entries_wire_append(items.drop_first(), more);
        lemma_entry_wire_append(items[0], entries_wire(items.drop_first(), Seq::empty()), more);
    }
}

/// Encodes the answer to `ProcessList`: a count, then the entries.
/// A list of 2^32 items or more does not fit the count, which then holds
/// the number modulo 2^32.
pub fn encode_process_list(items: &[ProcessInfo]) -> (out: Vec<u8>)
    ensures
        out@ == u32_le((items@.len() as int % 4294967296) as u32) + infos_wire(
            views(items@),
            Seq::empty(),
        ),
{
    let mut w = BinaryWriter::new();
    w.write_u32((items.len() as u64 % 4294967296) as u32);
    let ghost head = w.buf@;
    let ghost all = views(items@);
    let mut i: usize = 0;
    assert(all.take(0) =~= Seq::<ProcessInfoView>::empty());
    assert(w.buf@ =~= head + infos_wire(all.take(0), Seq::empty()));
    while i < items.len()
        invariant
            i <= items.len(),
            all == views(items@),
            w.buf@ == head + infos_wire(all.take(i as int), Seq::empty()),
        decreases items.len() - i,
    {
        let ghost done = all.take(i as int);
        write_info(&mut w, &items[i]);
        proof {
            let item = items@[i as int]@;
            lemma_infos_wire_append(done, info_wire(item, Seq::empty()));
            lemma_infos_wire_push(done, item);
            assert(all.take(i + 1) =~= done.push(item));
            assert(w.buf@ =~= head + infos_wire(all.take(i + 1), Seq::empty()));
        }
        i += 1;
    }
    assert(all.take(items@.len() as int) =~= all);
    w.buf
}

/// A list that was encoded is decoded as it was, provided that its length
/// fits the count and its strings fit their length prefixes.
pub proof fn lemma_encode_process_list_roundtrip(items: Seq<ProcessInfoView>)
    requires
        items.len() <= u32::MAX,
        infos_fit(items),
    ensures
        parse_process_list(u32_le(items.len() as u32) + infos_wire(items, Seq::empty())) == Ok::<
            Seq<ProcessInfoView>,
            Seq<char>,
        >(items),
{
    lemma_parse_u32(items.len() as u32, infos_wire(items, Seq::empty()));
    lemma_parse_infos_roundtrip(items, Seq::empty());
}

/// Encodes the answer to `LogRead`: a count, then the entries.
/// A list of 2^32 items or more does not fit the count, which then holds
/// the number modulo 2^32.
pub fn encode_log_entries(items: &[LogEntry]) -> (out: Vec<u8>)
    ensures
        out@ == u32_le((items@.len() as int % 4294967296) as u32) + entries_wire(
            views(items@),
            Seq::empty(),
        ),
{
    let mut w = BinaryWriter::new();
    w.write_u32((items.len() as u64 % 4294967296) as u32);
    let ghost head = w.buf@;
    let ghost all = views(items@);
    let mut i: usize = 0;
    assert(all.take(0) =~= Seq::<LogEntryView>::empty());
    assert(w.buf@ =~= head + entries_wire(all.take(0), Seq::empty()));
    while i < items.len()
        invariant
            i <= items.len(),
            all == views(items@),
            w.buf@ == head + entries_wire(all.take(i as int), Seq::empty()),
        decreases items.len() - i,
    {
        let ghost done = all.take(i as int);
        write_entry(&mut w, &items[i]);
        proof {
            let item = items@[i as int]@;
            lemma_entries_wire_append(done, entry_wire(item, Seq::empty()));
            lemma_entries_wire_push(done, item);
            assert(all.take(i + 1) =~= done.push(item));
            assert(w.buf@ =~= head + entries_wire(all.take(i + 1), Seq::empty()));
        }
        i += 1;
    }
    assert(all.take(items@.len() as int) =~= all);
    w.buf
}

/// A list that was encoded is decoded as it was, provided that its length
/// fits the count and its strings fit their length prefixes.
pub proof fn lemma_encode_log_entries_roundtrip(items: Seq<LogEntryView>)
    requires
        items.len() <= u32::MAX,
        entries_fit(items),
    ensures
        parse_log_entries(u32_le(items.len() as u32) + entries_wire(items, Seq::empty())) == Ok::<
            Seq<LogEntryView>,
            Seq<char>,
        >(items),
{
    lemma_parse_u32(items.len() as u32, entries_wire(items, Seq::empty()));
    lemma_parse_entries_roundtrip(items, Seq::empty());
}

/// Encodes the answer to `ProcessInfo`.
pub fn encode_process_detail(detail: &ProcessDetail) -> (out: Vec<u8>)
    ensures
        out@ == detail_wire(detail@, Seq::empty()),
{
    let mut w = BinaryWriter::new();
    write_detail(&mut w, detail);
    assert(w.buf@ =~= detail_wire(detail@, Seq::empty()));
    w.buf
}

} // verus!
