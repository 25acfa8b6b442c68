//! The framed binary protocol spoken over the daemon's socket.
//!
//! A frame is `MAGIC(2) | VERSION(1) | LEN(4 LE) | BODY(LEN)`. A request
//! body is `REQ_ID(4 LE) | CMD(1) | PAYLOAD`, a response body is
//! `REQ_ID(4 LE) | STATUS(1) | PAYLOAD`. Payloads are made of the
//! primitives in [`crate::wire`].

use vstd::prelude::*;
use vstd::slice::*;
use vstd::string::StringExecFns;
use vstd::utf8::*;

use crate::error::VelosError;
use crate::text::{decimal, hex2, push_decimal, push_hex2};
use crate::wire::{
    bool_byte, bytes_le, i32_from_le, i32_le, string_le, u32_from_le, u32_le, u64_from_le,
    u64_le,
};
use crate::outside::{lossy_text, utf8_error_text, utf8_lossy, utf8_text};

verus! {

/// The two bytes that open every frame.
pub const MAGIC: [u8; 2] = [0x56, 0x10];

/// The protocol version carried by every frame.
pub const VERSION: u8 = 0x01;

/// The length of a frame header in bytes.
pub const HEADER_SIZE: usize = 7;

// ------------------------------------------------------------------
// Parsing primitives, as functions on the unread bytes
// ------------------------------------------------------------------
/// The outcome of reading one value: the value and the bytes after it, or
/// the message of the protocol error.
pub type Parsed<T> = Result<(T, Seq<u8>), Seq<char>>;

/// Reads one byte.
#[verifier::opaque]
pub open spec fn parse_u8(s: Seq<u8>) -> Parsed<u8> {
    if s.len() < 1 {
        Err("truncated u8"@)
    } else {
        Ok((s[0], s.skip(1)))
    }
}

/// Reads a little-endian `u32`.
#[verifier::opaque]
pub open spec fn parse_u32(s: Seq<u8>) -> Parsed<u32> {
    if s.len() < 4 {
        Err("truncated u32"@)
    } else {
        Ok((u32_from_le(s), s.skip(4)))
    }
}

/// Reads a little-endian two's-complement `i32`.
#[verifier::opaque]
pub open spec fn parse_i32(s: Seq<u8>) -> Parsed<i32> {
    if s.len() < 4 {
        Err("truncated i32"@)
    } else {
        Ok((i32_from_le(s), s.skip(4)))
    }
}

/// Reads a little-endian `u64`.
#[verifier::opaque]
pub open spec fn parse_u64(s: Seq<u8>) -> Parsed<u64> {
    if s.len() < 8 {
        Err("truncated u64"@)
    } else {
        Ok((u64_from_le(s), s.skip(8)))
    }
}

/// Reads a boolean: any non-zero byte is true.
pub open spec fn parse_bool(s: Seq<u8>) -> Parsed<bool> {
    match parse_u8(s) {
        Err(m) => Err(m),
        Ok((b, rest)) => Ok((b != 0, rest)),
    }
}

/// Reads a length-prefixed UTF-8 string.
#[verifier::opaque]
pub open spec fn parse_string(s: Seq<u8>) -> Parsed<Seq<char>> {
    match parse_u32(s) {
        Err(m) => Err(m),
        Ok((n, rest)) => if rest.len() < n {
            Err("truncated string"@)
        } else if !valid_utf8(rest.take(n as int)) {
            Err("invalid utf8: "@ + utf8_error_text(rest.take(n as int)))
        } else {
            Ok((decode_utf8(rest.take(n as int)), rest.skip(n as int)))
        },
    }
}

/// Reads a length-prefixed run of bytes.
#[verifier::opaque]
pub open spec fn parse_bytes(s: Seq<u8>) -> Parsed<Seq<u8>> {
    match parse_u32(s) {
        Err(m) => Err(m),
        Ok((n, rest)) => if rest.len() < n {
            Err("truncated bytes"@)
        } else {
            Ok((rest.take(n as int), rest.skip(n as int)))
        },
    }
}

/// The unread bytes after `parse_string` has failed: the length prefix is
/// consumed once it has been read.
pub open spec fn after_failed_string(s: Seq<u8>) -> Seq<u8> {
    if s.len() < 4 {
        s
    } else {
        s.skip(4)
    }
}

// ------------------------------------------------------------------
// Binary writer
// ------------------------------------------------------------------
/// Appends wire primitives to a growing buffer.
pub struct BinaryWriter {
    pub buf: Vec<u8>,
}

impl BinaryWriter {
    /// A writer with an empty buffer.
    pub fn new() -> (w: Self)
        ensures
            w.buf@ == Seq::<u8>::empty(),
    {
        Self { buf: Vec::new() }
    }

    /// Appends one byte.
    pub fn write_u8(&mut self, val: u8)
        ensures
            final(self).buf@ == old(self).buf@.push(val),
    {
        self.buf.push(val);
    }

    /// Appends a `u32`, least significant byte first.
    pub fn write_u32(&mut self, val: u32)
        ensures
            final(self).buf@ == old(self).buf@ + u32_le(val),
    {
        proof {
            reveal(u32_le);
        }
        self.buf.push((val % 256) as u8);
        self.buf.push((val / 256 % 256) as u8);
        self.buf.push((val / 65536 % 256) as u8);
        self.buf.push((val / 16777216 % 256) as u8);
        assert(self.buf@ =~= old(self).buf@ + u32_le(val));
    }

    /// Appends a `u64`, least significant byte first.
    pub fn write_u64(&mut self, val: u64)
        ensures
            final(self).buf@ == old(self).buf@ + u64_le(val),
    {
        proof {
            reveal(u64_le);
        }
        self.write_u32((val % 4294967296) as u32);
        self.write_u32((val / 4294967296) as u32);
        assert(self.buf@ =~= old(self).buf@ + u64_le(val));
    }

    /// Appends an `i32` in two's complement, least significant byte first.
    pub fn write_i32(&mut self, val: i32)
        ensures
            final(self).buf@ == old(self).buf@ + i32_le(val),
    {
        proof {
            reveal(i32_le);
        }
        let bits: u32 = if val >= 0 {
            val as u32
        } else {
            (val as i64 + 4294967296) as u32
        };
        self.write_u32(bits);
    }

    /// Appends a run of bytes: its length as a `u32`, then the bytes. A
    /// length of 2^32 or more is reduced modulo 2^32 in the prefix.
    pub fn write_bytes(&mut self, bytes: &[u8])
        ensures
            final(self).buf@ == old(self).buf@ + bytes_le(bytes@),
    {
        proof {
            reveal(bytes_le);
        }
        let n: usize = bytes.len();
        self.write_u32((n as u64 % 4294967296) as u32);
        let mut i: usize = 0;
        while i < n
            invariant
                i <= n,
                n == bytes@.len(),
                self.buf@ == old(self).buf@ + u32_le((n as int % 4294967296) as u32)
                    + bytes@.take(i as int),
            decreases n - i,
        {
            self.buf.push(bytes[i]);
            i += 1;
            assert(bytes@.take(i as int) =~= bytes@.take(i - 1).push(bytes@[i - 1]));
            assert(self.buf@ =~= old(self).buf@ + u32_le((n as int % 4294967296) as u32)
                + bytes@.take(i as int));
        }
        assert(bytes@.take(n as int) =~= bytes@);
        assert(self.buf@ =~= old(self).buf@ + bytes_le(bytes@));
    }

    /// Appends a string: its byte length as a `u32`, then its UTF-8 bytes.
    /// A length of 2^32 or more is reduced modulo 2^32 in the prefix.
    pub fn write_string(&mut self, s: &str)
        ensures
            final(self).buf@ == old(self).buf@ + string_le(s@),
    {
        proof {
            reveal(string_le);
        }
        let bytes = s.as_bytes();
        let n: usize = bytes.len();
        self.write_u32((n as u64 % 4294967296) as u32);
        let mut i: usize = 0;
        while i < n
            invariant
                i <= n,
                n == bytes@.len(),
                self.buf@ == old(self).buf@ + u32_le((n as int % 4294967296) as u32)
                    + bytes@.take(i as int),
            decreases n - i,
        {
            self.buf.push(bytes[i]);
            i += 1;
            assert(bytes@.take(i as int) =~= bytes@.take(i - 1).push(bytes@[i - 1]));
            assert(self.buf@ =~= old(self).buf@ + u32_le((n as int % 4294967296) as u32)
                + bytes@.take(i as int));
        }
        assert(bytes@.take(n as int) =~= bytes@);
        assert(self.buf@ =~= old(self).buf@ + string_le(s@));
    }
}

// ------------------------------------------------------------------
// Binary reader
// ------------------------------------------------------------------
/// Reads wire primitives from a byte slice, front to back. Its view is the
/// sequence of bytes that are still unread.
pub struct BinaryReader<'a> {
    data: &'a [u8],
    pos: usize,
}

impl<'a> View for BinaryReader<'a> {
    type V = Seq<u8>;

    closed spec fn view(&self) -> Seq<u8> {
        self.data@.skip(self.pos as int)
    }
}

impl<'a> BinaryReader<'a> {
    #[verifier::type_invariant]
    spec fn in_bounds(&self) -> bool {
        self.pos <= self.data@.len()
    }

    /// A reader positioned at the first byte of `data`.
    pub fn new(data: &'a [u8]) -> (r: Self)
        ensures
            r@ == data@,
    {
        let r = Self { data, pos: 0 };
        assert(r@ =~= data@);
        r
    }

    /// The number of unread bytes.
    pub fn remaining(&self) -> (n: usize)
        ensures
            n == self@.len(),
    {
        proof {
            use_type_invariant(self);
        }
        self.data.len() - self.pos
    }

    /// Reads one byte.
    pub fn read_u8(&mut self) -> (r: Result<u8, VelosError>)
        ensures
            match parse_u8(old(self)@) {
                Ok((v, rest)) => r matches Ok(x) && x == v && final(self)@ == rest,
                Err(m) => r matches Err(e) && e.is_protocol(m) && final(self)@ == old(self)@,
            },
    {
        proof {
            reveal(parse_u8);
            use_type_invariant(&*self);
        }
        if self.pos >= self.data.len() {
            return Err(VelosError::ProtocolError(String::from_str("truncated u8")));
        }
        let val: u8 = self.data[self.pos];
        self.pos += 1;
        assert(self@ =~= old(self)@.skip(1));
        Ok(val)
    }

    /// Reads a little-endian `u32`.
    pub fn read_u32(&mut self) -> (r: Result<u32, VelosError>)
        ensures
            match parse_u32(old(self)@) {
                Ok((v, rest)) => r matches Ok(x) && x == v && final(self)@ == rest,
                Err(m) => r matches Err(e) && e.is_protocol(m) && final(self)@ == old(self)@,
            },
    {
        proof {
            reveal(parse_u32);
            use_type_invariant(&*self);
        }
        if self.data.len() - self.pos < 4 {
            return Err(VelosError::ProtocolError(String::from_str("truncated u32")));
        }
        let val: u32 = self.le_u32_at(self.pos);
        self.pos += 4;
        assert(self@ =~= old(self)@.skip(4));
        Ok(val)
    }

    /// Reads a little-endian two's-complement `i32`.
    pub fn read_i32(&mut self) -> (r: Result<i32, VelosError>)
        ensures
            match parse_i32(old(self)@) {
                Ok((v, rest)) => r matches Ok(x) && x == v && final(self)@ == rest,
                Err(m) => r matches Err(e) && e.is_protocol(m) && final(self)@ == old(self)@,
            },
    {
        proof {
            reveal(parse_i32);
            reveal(i32_from_le);
            use_type_invariant(&*self);
        }
        if self.data.len() - self.pos < 4 {
            return Err(VelosError::ProtocolError(String::from_str("truncated i32")));
        }
        let bits: u32 = self.le_u32_at(self.pos);
        self.pos += 4;
        assert(self@ =~= old(self)@.skip(4));
        let val: i32 = if bits < 2147483648 {
            bits as i32
        } else {
            (bits as i64 - 4294967296) as i32
        };
        Ok(val)
    }

    /// Reads a little-endian `u64`.
    pub fn read_u64(&mut self) -> (r: Result<u64, VelosError>)
        ensures
            match parse_u64(old(self)@) {
                Ok((v, rest)) => r matches Ok(x) && x == v && final(self)@ == rest,
                Err(m) => r matches Err(e) && e.is_protocol(m) && final(self)@ == old(self)@,
            },
    {
        proof {
            reveal(parse_u64);
            reveal(u64_from_le);
            use_type_invariant(&*self);
        }
        if self.data.len() - self.pos < 8 {
            return Err(VelosError::ProtocolError(String::from_str("truncated u64")));
        }
        let lo: u32 = self.le_u32_at(self.pos);
        let hi: u32 = self.le_u32_at(self.pos + 4);
        assert(old(self)@.skip(4) =~= self.data@.skip(self.pos + 4));
        self.pos += 8;
        assert(self@ =~= old(self)@.skip(8));
        Ok(lo as u64 + hi as u64 * 4294967296)
    }

    /// Reads a length-prefixed UTF-8 string. When the prefix can be read but
    /// the string cannot, the prefix stays consumed.
    pub fn read_string(&mut self) -> (r: Result<String, VelosError>)
        ensures
            match parse_string(old(self)@) {
                Ok((v, rest)) => r matches Ok(x) && x@ == v && final(self)@ == rest,
                Err(m) => r matches Err(e) && e.is_protocol(m) && final(self)@
                    == after_failed_string(old(self)@),
            },
    {
        proof {
            reveal(parse_string);
            reveal(parse_u32);
        }
        let len: usize = match self.read_u32() {
            Ok(n) => n as usize,
            Err(e) => {
                return Err(e);
            },
        };
        proof {
            use_type_invariant(&*self);
        }
        if self.data.len() - self.pos < len {
            return Err(VelosError::ProtocolError(String::from_str("truncated string")));
        }
        let bytes = slice_subrange(self.data, self.pos, self.pos + len);
        assert(bytes@ =~= self@.take(len as int));
        match utf8_text(bytes) {
            Ok(s) => {
                let ghost before = self@;
                self.pos += len;
                assert(self@ =~= before.skip(len as int));
                Ok(s)
            },
            Err(cause) => {
                let msg = String::from_str("invalid utf8: ").concat(cause.as_str());
                Err(VelosError::ProtocolError(msg))
            },
        }
    }

    /// Reads a length-prefixed run of bytes. When the prefix can be read
    /// but the bytes cannot, the prefix stays consumed.
    pub fn read_bytes(&mut self) -> (r: Result<Vec<u8>, VelosError>)
        ensures
            match parse_bytes(old(self)@) {
                Ok((v, rest)) => r matches Ok(x) && x@ == v && final(self)@ == rest,
                Err(m) => r matches Err(e) && e.is_protocol(m),
            },
    {
        proof {
            reveal(parse_bytes);
        }
        let len: usize = self.read_u32()? as usize;
        proof {
            use_type_invariant(&*self);
        }
        if self.data.len() - self.pos < len {
            return Err(VelosError::ProtocolError(String::from_str("truncated bytes")));
        }
        let bytes = slice_subrange(self.data, self.pos, self.pos + len);
        assert(bytes@ =~= self@.take(len as int));
        let ghost before = self@;
        self.pos += len;
        assert(self@ =~= before.skip(len as int));
        Ok(slice_to_vec(bytes))
    }

    /// Reads all the bytes that are left.
    pub fn read_raw(&mut self) -> (out: Vec<u8>)
        ensures
            out@ == old(self)@,
            final(self)@ == Seq::<u8>::empty(),
    {
        proof {
            use_type_invariant(&*self);
        }
        let rest = slice_subrange(self.data, self.pos, self.data.len());
        assert(rest@ =~= self@);
        self.pos = self.data.len();
        assert(self@ =~= Seq::<u8>::empty());
        slice_to_vec(rest)
    }

    /// The `u32` whose little-endian bytes start at `at`.
    fn le_u32_at(&self, at: usize) -> (v: u32)
        requires
            at + 4 <= self.data@.len(),
        ensures
            v == u32_from_le(self.data@.skip(at as int)),
    {
        proof {
            reveal(u32_from_le);
        }
        let b0: u32 = self.data[at] as u32;
        let b1: u32 = self.data[at + 1] as u32;
        let b2: u32 = self.data[at + 2] as u32;
        let b3: u32 = self.data[at + 3] as u32;
        b0 + b1 * 256 + b2 * 65536 + b3 * 16777216
    }
}

// ------------------------------------------------------------------
// Frame header
// ------------------------------------------------------------------
/// The seven header bytes of a frame whose body has `len` bytes.
pub open spec fn header_bytes(len: u32) -> Seq<u8> {
    seq![0x56u8, 0x10u8, 0x01u8] + u32_le(len)
}

/// The message for a header that does not start with the magic bytes.
pub open spec fn bad_magic_text(b0: u8, b1: u8) -> Seq<char> {
    "invalid magic: [0x"@ + hex2(b0) + ", 0x"@ + hex2(b1) + "]"@
}

/// The message for a header with another protocol version.
pub open spec fn bad_version_text(v: u8) -> Seq<char> {
    "unsupported protocol version: "@ + decimal(v as nat)
}

/// Reads a header: the body length, or the message of the protocol error
/// when magic or version differ.
pub open spec fn parse_header(h: Seq<u8>) -> Result<u32, Seq<char>>
    recommends
        h.len() == 7,
{
    if h[0] != 0x56 || h[1] != 0x10 {
        Err(bad_magic_text(h[0], h[1]))
    } else if h[2] != 0x01 {
        Err(bad_version_text(h[2]))
    } else {
        Ok(u32_from_le(h.skip(3)))
    }
}

/// Builds the header of a frame whose body has `payload_len` bytes.
pub fn encode_header(payload_len: u32) -> (h: [u8; HEADER_SIZE])
    ensures
        h@ == header_bytes(payload_len),
{
    proof {
        reveal(u32_le);
    }
    let h: [u8; HEADER_SIZE] = [
        MAGIC[0],
        MAGIC[1],
        VERSION,
        (payload_len % 256) as u8,
        (payload_len / 256 % 256) as u8,
        (payload_len / 65536 % 256) as u8,
        (payload_len / 16777216 % 256) as u8,
    ];
    assert(h@ =~= header_bytes(payload_len));
    h
}

/// Checks magic and version and returns the body length.
pub fn decode_header(buf: &[u8; HEADER_SIZE]) -> (r: Result<u32, VelosError>)
    ensures
        match parse_header(buf@) {
            Ok(n) => r matches Ok(x) && x == n,
            Err(m) => r matches Err(e) && e.is_protocol(m),
        },
{
    proof {
        reveal(u32_from_le);
    }
    if buf[0] != MAGIC[0] || buf[1] != MAGIC[1] {
        let mut msg = String::from_str("invalid magic: [0x");
        push_hex2(&mut msg, buf[0]);
        msg.append(", 0x");
        push_hex2(&mut msg, buf[1]);
        msg.append("]");
        return Err(VelosError::ProtocolError(msg));
    }
    if buf[2] != VERSION {
        let mut msg = String::from_str("unsupported protocol version: ");
        push_decimal(&mut msg, buf[2] as u64);
        return Err(VelosError::ProtocolError(msg));
    }
    let b0: u32 = buf[3] as u32;
    let b1: u32 = buf[4] as u32;
    let b2: u32 = buf[5] as u32;
    let b3: u32 = buf[6] as u32;
    Ok(b0 + b1 * 256 + b2 * 65536 + b3 * 16777216)
}

// ------------------------------------------------------------------
// Command and status codes
// ------------------------------------------------------------------
/// The commands a request can carry.
#[derive(Debug, Clone, Copy, PartialEq, Eq, Structural)]
pub enum CommandCode {
    ProcessStart,
    ProcessStop,
    ProcessRestart,
    ProcessDelete,
    ProcessList,
    ProcessInfo,
    ProcessScale,
    LogRead,
    LogStream,
    MetricsGet,
    StateSave,
    StateLoad,
    Ping,
    Shutdown,
}

impl CommandCode {
    /// The byte that stands for this command on the wire.
    pub open spec fn wire_code(self) -> u8 {
        match self {
            CommandCode::ProcessStart => 0x01,
            CommandCode::ProcessStop => 0x02,
            CommandCode::ProcessRestart => 0x03,
            CommandCode::ProcessDelete => 0x04,
            CommandCode::ProcessList => 0x05,
            CommandCode::ProcessInfo => 0x06,
            CommandCode::ProcessScale => 0x07,
            CommandCode::LogRead => 0x10,
            CommandCode::LogStream => 0x11,
            CommandCode::MetricsGet => 0x20,
            CommandCode::StateSave => 0x30,
            CommandCode::StateLoad => 0x31,
            CommandCode::Ping => 0x40,
            CommandCode::Shutdown => 0x41,
        }
    }

    /// The command that the byte `v` stands for, if any.
    pub open spec fn of_wire_code(v: u8) -> Option<CommandCode> {
        if v == 0x01 {
            Some(CommandCode::ProcessStart)
        } else if v == 0x02 {
            Some(CommandCode::ProcessStop)
        } else if v == 0x03 {
            Some(CommandCode::ProcessRestart)
        } else if v == 0x04 {
            Some(CommandCode::ProcessDelete)
        } else if v == 0x05 {
            Some(CommandCode::ProcessList)
        } else if v == 0x06 {
            Some(CommandCode::ProcessInfo)
        } else if v == 0x07 {
            Some(CommandCode::ProcessScale)
        } else if v == 0x10 {
            Some(CommandCode::LogRead)
        } else if v == 0x11 {
            Some(CommandCode::LogStream)
        } else if v == 0x20 {
            Some(CommandCode::MetricsGet)
        } else if v == 0x30 {
            Some(CommandCode::StateSave)
        } else if v == 0x31 {
            Some(CommandCode::StateLoad)
        } else if v == 0x40 {
            Some(CommandCode::Ping)
        } else if v == 0x41 {
            Some(CommandCode::Shutdown)
        } else {
            None
        }
    }

    /// The byte that stands for this command on the wire.
    pub fn code(self) -> (c: u8)
        ensures
            c == self.wire_code(),
    {
        match self {
            CommandCode::ProcessStart => 0x01,
            CommandCode::ProcessStop => 0x02,
            CommandCode::ProcessRestart => 0x03,
            CommandCode::ProcessDelete => 0x04,
            CommandCode::ProcessList => 0x05,
            CommandCode::ProcessInfo => 0x06,
            CommandCode::ProcessScale => 0x07,
            CommandCode::LogRead => 0x10,
            CommandCode::LogStream => 0x11,
            CommandCode::MetricsGet => 0x20,
            CommandCode::StateSave => 0x30,
            CommandCode::StateLoad => 0x31,
            CommandCode::Ping => 0x40,
            CommandCode::Shutdown => 0x41,
        }
    }

    /// The command that the byte `v` stands for; `None` for an unknown byte.
    pub fn from_u8(v: u8) -> (r: Option<Self>)
        ensures
            r == Self::of_wire_code(v),
    {
        match v {
            0x01 => Some(CommandCode::ProcessStart),
            0x02 => Some(CommandCode::ProcessStop),
            0x03 => Some(CommandCode::ProcessRestart),
            0x04 => Some(CommandCode::ProcessDelete),
            0x05 => Some(CommandCode::ProcessList),
            0x06 => Some(CommandCode::ProcessInfo),
            0x07 => Some(CommandCode::ProcessScale),
            0x10 => Some(CommandCode::LogRead),
            0x11 => Some(CommandCode::LogStream),
            0x20 => Some(CommandCode::MetricsGet),
            0x30 => Some(CommandCode::StateSave),
            0x31 => Some(CommandCode::StateLoad),
            0x40 => Some(CommandCode::Ping),
            0x41 => Some(CommandCode::Shutdown),
            _ => None,
        }
    }
}

/// The status of a response: `Okay` and `Error` end a request, `Streaming`
/// frames may precede them.
#[derive(Debug, Clone, Copy, PartialEq, Eq, Structural)]
pub enum ResponseStatus {
    Okay,
    Error,
    Streaming,
}

impl ResponseStatus {
    /// The byte that stands for this status on the wire.
    pub open spec fn wire_code(self) -> u8 {
        match self {
            ResponseStatus::Okay => 0,
            ResponseStatus::Error => 1,
            ResponseStatus::Streaming => 2,
        }
    }

    /// The status that the byte `v` stands for, if any.
    pub open spec fn of_wire_code(v: u8) -> Option<ResponseStatus> {
        if v == 0 {
            Some(ResponseStatus::Okay)
        } else if v == 1 {
            Some(ResponseStatus::Error)
        } else if v == 2 {
            Some(ResponseStatus::Streaming)
        } else {
            None
        }
    }

    /// The byte that stands for this status on the wire.
    pub fn code(self) -> (c: u8)
        ensures
            c == self.wire_code(),
    {
        match self {
            ResponseStatus::Okay => 0,
            ResponseStatus::Error => 1,
            ResponseStatus::Streaming => 2,
        }
    }

    /// The status that the byte `v` stands for; `None` for an unknown byte.
    pub fn from_u8(v: u8) -> (r: Option<Self>)
        ensures
            r == Self::of_wire_code(v),
    {
        match v {
            0 => Some(ResponseStatus::Okay),
            1 => Some(ResponseStatus::Error),
            2 => Some(ResponseStatus::Streaming),
            _ => None,
        }
    }

    /// True for the two statuses that end a request.
    pub fn is_terminal(self) -> (t: bool)
        ensures
            t == (self != ResponseStatus::Streaming),
    {
        match self {
            ResponseStatus::Streaming => false,
            _ => true,
        }
    }
}

// ------------------------------------------------------------------
// Frames, requests and responses
// ------------------------------------------------------------------
/// Appends the bytes of `src` to `buf`.
fn extend(buf: &mut Vec<u8>, src: &[u8])
    ensures
        final(buf)@ == old(buf)@ + src@,
{
    let mut i: usize = 0;
    while i < src.len()
        invariant
            i <= src.len(),
            buf@ == old(buf)@ + src@.take(i as int),
        decreases src.len() - i,
    {
        buf.push(src[i]);
        i += 1;
        assert(buf@ =~= old(buf)@ + src@.take(i as int));
    }
    assert(src@.take(src.len() as int) =~= src@);
}

/// The length field of a frame whose body is five bytes and a payload of
/// `payload_len` bytes. A body of 2^32 bytes or more does not fit the
/// field, which then holds the length modulo 2^32.
pub open spec fn body_len(payload_len: nat) -> u32 {
    ((5 + payload_len) % 4294967296) as u32
}

/// A body: the request id, one code byte, the payload.
pub open spec fn body_bytes(id: u32, code: u8, payload: Seq<u8>) -> Seq<u8> {
    u32_le(id).push(code) + payload
}

/// A whole frame: header, then body.
pub open spec fn frame_bytes(id: u32, code: u8, payload: Seq<u8>) -> Seq<u8> {
    header_bytes(body_len(payload.len())) + body_bytes(id, code, payload)
}

/// Splits a frame into header and body: the body, or the message of the
/// protocol error when the header is malformed or fewer bytes follow it
/// than it declares.
pub open spec fn parse_frame(frame: Seq<u8>) -> Result<Seq<u8>, Seq<char>> {
    if frame.len() < 7 {
        Err("truncated header"@)
    } else {
        match parse_header(frame.take(7)) {
            Err(m) => Err(m),
            Ok(n) => if frame.len() - 7 < n {
                Err("truncated body"@)
            } else {
                Ok(frame.subrange(7, 7 + n))
            },
        }
    }
}

/// Reads a request body.
pub open spec fn parse_request_body(b: Seq<u8>) -> Result<(u32, CommandCode, Seq<u8>), Seq<char>> {
    if b.len() < 5 {
        Err("request body too short"@)
    } else {
        match CommandCode::of_wire_code(b[4]) {
            None => Err("unknown command: "@ + decimal(b[4] as nat)),
            Some(c) => Ok((u32_from_le(b), c, b.skip(5))),
        }
    }
}

/// Reads a response body.
pub open spec fn parse_response_body(b: Seq<u8>) -> Result<
    (u32, ResponseStatus, Seq<u8>),
    Seq<char>,
> {
    if b.len() < 5 {
        Err("response body too short"@)
    } else {
        match ResponseStatus::of_wire_code(b[4]) {
            None => Err("unknown response status: "@ + decimal(b[4] as nat)),
            Some(st) => Ok((u32_from_le(b), st, b.skip(5))),
        }
    }
}

/// Reads a whole request frame.
pub open spec fn parse_request(frame: Seq<u8>) -> Result<(u32, CommandCode, Seq<u8>), Seq<char>> {
    match parse_frame(frame) {
        Err(m) => Err(m),
        Ok(body) => parse_request_body(body),
    }
}

/// Reads a whole response frame.
pub open spec fn parse_response(frame: Seq<u8>) -> Result<
    (u32, ResponseStatus, Seq<u8>),
    Seq<char>,
> {
    match parse_frame(frame) {
        Err(m) => Err(m),
        Ok(body) => parse_response_body(body),
    }
}

/// Builds the frame for a body of five bytes and `payload`.
fn encode_frame(id: u32, code: u8, payload: &Vec<u8>) -> (out: Vec<u8>)
    ensures
        out@ == frame_bytes(id, code, payload@),
{
    let n: usize = payload.len();
    let len: u32 = ((n as u128 + 5) % 4294967296) as u32;
    let header = encode_header(len);
    let mut w = BinaryWriter::new();
    extend(&mut w.buf, header.as_slice());
    w.write_u32(id);
    w.write_u8(code);
    extend(&mut w.buf, payload.as_slice());
    assert(w.buf@ =~= frame_bytes(id, code, payload@));
    w.buf
}

/// Checks the header of a frame and returns its body. Bytes after the
/// declared length are ignored.
pub fn decode_frame(frame: &[u8]) -> (r: Result<&[u8], VelosError>)
    ensures
        match parse_frame(frame@) {
            Ok(body) => r matches Ok(b) && b@ == body,
            Err(m) => r matches Err(e) && e.is_protocol(m),
        },
{
    if frame.len() < HEADER_SIZE {
        return Err(VelosError::ProtocolError(String::from_str("truncated header")));
    }
    let header: [u8; HEADER_SIZE] = [
        frame[0],
        frame[1],
        frame[2],
        frame[3],
        frame[4],
        frame[5],
        frame[6],
    ];
    assert(header@ =~= frame@.take(7));
    let n: usize = match decode_header(&header) {
        Ok(n) => n as usize,
        Err(e) => {
            return Err(e);
        },
    };
    if frame.len() - HEADER_SIZE < n {
        return Err(VelosError::ProtocolError(String::from_str("truncated body")));
    }
    Ok(slice_subrange(frame, HEADER_SIZE, HEADER_SIZE + n))
}

/// A request: an id chosen by the client, a command and its payload.
#[derive(Debug, Clone)]
pub struct Request {
    pub id: u32,
    pub command: CommandCode,
    pub payload: Vec<u8>,
}

impl Request {
    /// The frame that carries this request. Always succeeds.
    pub fn encode(&self) -> (r: Result<Vec<u8>, VelosError>)
        ensures
            r matches Ok(bytes) && bytes@ == frame_bytes(
                self.id,
                self.command.wire_code(),
                self.payload@,
            ),
    {
        Ok(encode_frame(self.id, self.command.code(), &self.payload))
    }

    /// Reads a request from the body of a frame.
    pub fn from_body(body: &[u8]) -> (r: Result<Self, VelosError>)
        ensures
            match parse_request_body(body@) {
                Ok((id, command, payload)) => r matches Ok(x) && x.id == id && x.command == command
                    && x.payload@ == payload,
                Err(m) => r matches Err(e) && e.is_protocol(m),
            },
    {
        proof {
            reveal(u32_from_le);
        }
        if body.len() < 5 {
            return Err(VelosError::ProtocolError(String::from_str("request body too short")));
        }
        let id: u32 = body[0] as u32 + body[1] as u32 * 256 + body[2] as u32 * 65536
            + body[3] as u32 * 16777216;
        let command = match CommandCode::from_u8(body[4]) {
            Some(c) => c,
            None => {
                let mut msg = String::from_str("unknown command: ");
                push_decimal(&mut msg, body[4] as u64);
                return Err(VelosError::ProtocolError(msg));
            },
        };
        let payload = slice_to_vec(slice_subrange(body, 5, body.len()));
        assert(payload@ =~= body@.skip(5));
        Ok(Self { id, command, payload })
    }

    /// Reads a request from a whole frame.
    pub fn decode(frame: &[u8]) -> (r: Result<Self, VelosError>)
        ensures
            match parse_request(frame@) {
                Ok((id, command, payload)) => r matches Ok(x) && x.id == id && x.command == command
                    && x.payload@ == payload,
                Err(m) => r matches Err(e) && e.is_protocol(m),
            },
    {
        match decode_frame(frame) {
            Ok(body) => Self::from_body(body),
            Err(e) => Err(e),
        }
    }
}

/// A response: the id of the request it answers, a status and a payload.
#[derive(Debug, Clone)]
pub struct Response {
    pub id: u32,
    pub status: ResponseStatus,
    pub payload: Vec<u8>,
}

impl Response {
    /// The response that answers request `id`: it echoes the id.
    pub fn reply(id: u32, status: ResponseStatus, payload: Vec<u8>) -> (r: Self)
        ensures
            r.id == id,
            r.status == status,
            r.payload@ == payload@,
    {
        Self { id, status, payload }
    }

    /// The frame that carries this response.
    pub fn encode(&self) -> (bytes: Vec<u8>)
        ensures
            bytes@ == frame_bytes(self.id, self.status.wire_code(), self.payload@),
    {
        encode_frame(self.id, self.status.code(), &self.payload)
    }

    /// Reads a response from the body of a frame.
    pub fn from_body(body: &[u8]) -> (r: Result<Self, VelosError>)
        ensures
            match parse_response_body(body@) {
                Ok((id, status, payload)) => r matches Ok(x) && x.id == id && x.status == status
                    && x.payload@ == payload,
                Err(m) => r matches Err(e) && e.is_protocol(m),
            },
    {
        proof {
            reveal(u32_from_le);
        }
        if body.len() < 5 {
            return Err(VelosError::ProtocolError(String::from_str("response body too short")));
        }
        let id: u32 = body[0] as u32 + body[1] as u32 * 256 + body[2] as u32 * 65536
            + body[3] as u32 * 16777216;
        let status = match ResponseStatus::from_u8(body[4]) {
            Some(st) => st,
            None => {
                let mut msg = String::from_str("unknown response status: ");
                push_decimal(&mut msg, body[4] as u64);
                return Err(VelosError::ProtocolError(msg));
            },
        };
        let payload = slice_to_vec(slice_subrange(body, 5, body.len()));
        assert(payload@ =~= body@.skip(5));
        Ok(Self { id, status, payload })
    }

    /// Reads a response from a whole frame.
    pub fn decode(frame: &[u8]) -> (r: Result<Self, VelosError>)
        ensures
            match parse_response(frame@) {
                Ok((id, status, payload)) => r matches Ok(x) && x.id == id && x.status == status
                    && x.payload@ == payload,
                Err(m) => r matches Err(e) && e.is_protocol(m),
            },
    {
        match decode_frame(frame) {
            Ok(body) => Self::from_body(body),
            Err(e) => Err(e),
        }
    }

    /// The payload read as text, for an `Error` response: malformed UTF-8
    /// is replaced, well-formed UTF-8 is decoded as it stands.
    pub fn error_message(&self) -> (s: String)
        ensures
            s@ == lossy_text(self.payload@),
            valid_utf8(self.payload@) ==> s@ == decode_utf8(self.payload@),
    {
        utf8_lossy(self.payload.as_slice())
    }
}

/// A header built for a length reads back as that length.
pub proof fn lemma_header_roundtrip(len: u32)
    ensures
        header_bytes(len).len() == 7,
        parse_header(header_bytes(len)) == Ok::<u32, Seq<char>>(len),
{
    let h = header_bytes(len);
    assert(h.skip(3) =~= u32_le(len));
    crate::wire::lemma_u32_roundtrip(len);
}

/// A header is accepted exactly when it carries the magic bytes and the
/// version: altering any of the three makes it rejected.
pub proof fn lemma_header_rejects_altered(h: Seq<u8>)
    requires
        h.len() == 7,
    ensures
        parse_header(h) is Ok <==> (h[0] == 0x56 && h[1] == 0x10 && h[2] == 0x01),
{
}

/// The parts of a body: its length, its id, its code byte and its payload.
pub proof fn lemma_body_parts(id: u32, code: u8, payload: Seq<u8>)
    ensures
        body_bytes(id, code, payload).len() == 5 + payload.len(),
        u32_from_le(body_bytes(id, code, payload)) == id,
        body_bytes(id, code, payload)[4] == code,
        body_bytes(id, code, payload).skip(5) == payload,
{
    let x = u32_le(id);
    let body = body_bytes(id, code, payload);
    crate::wire::lemma_u32_roundtrip(id);
    assert(x.len() == 4);
    assert(body[0] == x[0] && body[1] == x[1] && body[2] == x[2] && body[3] == x[3]);
    crate::wire::lemma_u32_prefix(body, x);
    assert(body.skip(5) =~= payload);
}

/// Framing round trip for requests: the frame built from an id, a command
/// and a payload that fits the length field reads back as the same three.
pub proof fn lemma_request_roundtrip(id: u32, command: CommandCode, payload: Seq<u8>)
    requires
        5 + payload.len() <= u32::MAX,
    ensures
        parse_request(frame_bytes(id, command.wire_code(), payload)) == Ok::<
            (u32, CommandCode, Seq<u8>),
            Seq<char>,
        >((id, command, payload)),
{
    lemma_frame_roundtrip(id, command.wire_code(), payload);
    lemma_body_parts(id, command.wire_code(), payload);
    assert(CommandCode::of_wire_code(command.wire_code()) == Some(command));
}

/// Framing round trip for responses.
pub proof fn lemma_response_roundtrip(id: u32, status: ResponseStatus, payload: Seq<u8>)
    requires
        5 + payload.len() <= u32::MAX,
    ensures
        parse_response(frame_bytes(id, status.wire_code(), payload)) == Ok::<
            (u32, ResponseStatus, Seq<u8>),
            Seq<char>,
        >((id, status, payload)),
{
    lemma_frame_roundtrip(id, status.wire_code(), payload);
    lemma_body_parts(id, status.wire_code(), payload);
    assert(ResponseStatus::of_wire_code(status.wire_code()) == Some(status));
}

/// A frame whose body fits the length field splits into exactly that body.
pub proof fn lemma_frame_roundtrip(id: u32, code: u8, payload: Seq<u8>)
    requires
        5 + payload.len() <= u32::MAX,
    ensures
        parse_frame(frame_bytes(id, code, payload)) == Ok::<Seq<u8>, Seq<char>>(
            body_bytes(id, code, payload),
        ),
{
    let len = body_len(payload.len());
    let frame = frame_bytes(id, code, payload);
    let body = body_bytes(id, code, payload);
    lemma_header_roundtrip(len);
    crate::wire::lemma_u32_roundtrip(id);
    assert(len == 5 + payload.len());
    assert(body.len() == 5 + payload.len());
    assert(frame.take(7) =~= header_bytes(len));
    assert(frame.subrange(7, 7 + len) =~= body);
}

// ------------------------------------------------------------------
// Payloads sent by clients
// ------------------------------------------------------------------
/// The value of a successful read.
pub open spec fn val<T>(p: Parsed<T>) -> T {
    p->Ok_0.0
}

/// The bytes left after a successful read.
pub open spec fn rest<T>(p: Parsed<T>) -> Seq<u8> {
    p->Ok_0.1
}

/// The message of a failed read.
pub open spec fn fault<T>(p: Parsed<T>) -> Seq<char> {
    p->Err_0
}

/// The text of an optional string: empty when absent.
pub open spec fn text_or_empty(s: Option<String>) -> Seq<char> {
    match s {
        Some(t) => t@,
        None => Seq::<char>::empty(),
    }
}

/// The payload of `ProcessStart`: everything the daemon needs to launch
/// and supervise a process.
pub struct StartPayload {
    pub name: String,
    pub script: String,
    pub cwd: String,
    pub interpreter: Option<String>,
    pub kill_timeout_ms: u32,
    pub autorestart: bool,
    pub max_restarts: i32,
    pub min_uptime_ms: u64,
    pub restart_delay_ms: u32,
    pub exp_backoff: bool,
    pub max_memory_restart: u64,
    pub watch: bool,
    pub watch_delay_ms: u32,
    pub watch_paths: String,
    pub watch_ignore: String,
    pub cron_restart: String,
    pub wait_ready: bool,
    pub listen_timeout_ms: u32,
    pub shutdown_with_message: bool,
    pub instances: u32,
}

impl StartPayload {
    /// The bytes of this payload: its fields in declaration order, an
    /// absent interpreter as the empty string.
    pub open spec fn wire(&self) -> Seq<u8> {
        string_le(self.name@) + string_le(self.script@) + string_le(self.cwd@) + string_le(
            text_or_empty(self.interpreter),
        ) + u32_le(self.kill_timeout_ms) + bool_byte(self.autorestart) + i32_le(self.max_restarts)
            + u64_le(self.min_uptime_ms) + u32_le(self.restart_delay_ms) + bool_byte(
            self.exp_backoff,
        ) + u64_le(self.max_memory_restart) + bool_byte(self.watch) + u32_le(self.watch_delay_ms)
            + string_le(self.watch_paths@) + string_le(self.watch_ignore@) + string_le(
            self.cron_restart@,
        ) + bool_byte(self.wait_ready) + u32_le(self.listen_timeout_ms) + bool_byte(
            self.shutdown_with_message,
        ) + u32_le(self.instances)
    }

    /// A copy of this payload.
    pub fn duplicate(&self) -> (p: StartPayload)
        ensures
            p == *self,
    {
        StartPayload {
            name: self.name.clone(),
            script: self.script.clone(),
            cwd: self.cwd.clone(),
            interpreter: match &self.interpreter {
                Some(i) => Some(i.clone()),
                None => None,
            },
            kill_timeout_ms: self.kill_timeout_ms,
            autorestart: self.autorestart,
            max_restarts: self.max_restarts,
            min_uptime_ms: self.min_uptime_ms,
            restart_delay_ms: self.restart_delay_ms,
            exp_backoff: self.exp_backoff,
            max_memory_restart: self.max_memory_restart,
            watch: self.watch,
            watch_delay_ms: self.watch_delay_ms,
            watch_paths: self.watch_paths.clone(),
            watch_ignore: self.watch_ignore.clone(),
            cron_restart: self.cron_restart.clone(),
            wait_ready: self.wait_ready,
            listen_timeout_ms: self.listen_timeout_ms,
            shutdown_with_message: self.shutdown_with_message,
            instances: self.instances,
        }
    }

    /// Serialises the payload.
    pub fn encode(&self) -> (out: Vec<u8>)
        ensures
            out@ == self.wire(),
    {
        let mut w = BinaryWriter::new();
        w.write_string(self.name.as_str());
        w.write_string(self.script.as_str());
        w.write_string(self.cwd.as_str());
        match &self.interpreter {
            Some(i) => w.write_string(i.as_str()),
            None => {
                proof {
                    reveal_strlit("");
                }
                w.write_string("");
                assert(""@ =~= Seq::<char>::empty());
            },
        }
        w.write_u32(self.kill_timeout_ms);
        write_bool(&mut w, self.autorestart);
        w.write_i32(self.max_restarts);
        w.write_u64(self.min_uptime_ms);
        w.write_u32(self.restart_delay_ms);
        write_bool(&mut w, self.exp_backoff);
        w.write_u64(self.max_memory_restart);
        write_bool(&mut w, self.watch);
        w.write_u32(self.watch_delay_ms);
        w.write_string(self.watch_paths.as_str());
        w.write_string(self.watch_ignore.as_str());
        w.write_string(self.cron_restart.as_str());
        write_bool(&mut w, self.wait_ready);
        w.write_u32(self.listen_timeout_ms);
        write_bool(&mut w, self.shutdown_with_message);
        w.write_u32(self.instances);
        assert(w.buf@ =~= self.wire());
        w.buf
    }
}

/// Appends a boolean as one byte.
fn write_bool(w: &mut BinaryWriter, b: bool)
    ensures
        final(w).buf@ == old(w).buf@ + bool_byte(b),
{
    w.write_u8(if b { 1 } else { 0 });
    assert(w.buf@ =~= old(w).buf@ + bool_byte(b));
}

/// The payload of `ProcessScale`: a cluster's base name and the number of
/// instances it should have.
pub struct ScalePayload {
    pub name: String,
    pub target_count: u32,
}

impl ScalePayload {
    /// The bytes of this payload.
    pub open spec fn wire(&self) -> Seq<u8> {
        string_le(self.name@) + u32_le(self.target_count)
    }

    /// Serialises the payload.
    pub fn encode(&self) -> (out: Vec<u8>)
        ensures
            out@ == self.wire(),
    {
        let mut w = BinaryWriter::new();
        w.write_string(self.name.as_str());
        w.write_u32(self.target_count);
        assert(w.buf@ =~= self.wire());
        w.buf
    }
}

/// The payload of `ProcessStop`: which process, with which signal, and how
/// long to wait before the kill.
pub struct StopPayload {
    pub process_id: u32,
    pub signal: u8,
    pub timeout_ms: u32,
}

impl StopPayload {
    /// The bytes of this payload.
    pub open spec fn wire(&self) -> Seq<u8> {
        u32_le(self.process_id).push(self.signal) + u32_le(self.timeout_ms)
    }

    /// Serialises the payload.
    pub fn encode(&self) -> (out: Vec<u8>)
        ensures
            out@ == self.wire(),
    {
        let mut w = BinaryWriter::new();
        w.write_u32(self.process_id);
        w.write_u8(self.signal);
        w.write_u32(self.timeout_ms);
        assert(w.buf@ =~= self.wire());
        w.buf
    }
}

/// The payload of `ProcessDelete`.
pub struct DeletePayload {
    pub process_id: u32,
}

impl DeletePayload {
    /// Serialises the payload: the id in four bytes.
    pub fn encode(&self) -> (out: Vec<u8>)
        ensures
            out@ == u32_le(self.process_id),
    {
        let mut w = BinaryWriter::new();
        w.write_u32(self.process_id);
        assert(w.buf@ =~= u32_le(self.process_id));
        w.buf
    }
}

/// The payload of `ProcessRestart`.
pub struct RestartPayload {
    pub process_id: u32,
}

impl RestartPayload {
    /// Serialises the payload: the id in four bytes.
    pub fn encode(&self) -> (out: Vec<u8>)
        ensures
            out@ == u32_le(self.process_id),
    {
        let mut w = BinaryWriter::new();
        w.write_u32(self.process_id);
        assert(w.buf@ =~= u32_le(self.process_id));
        w.buf
    }
}

/// The payload of `ProcessInfo`.
pub struct InfoPayload {
    pub process_id: u32,
}

impl InfoPayload {
    /// Serialises the payload: the id in four bytes.
    pub fn encode(&self) -> (out: Vec<u8>)
        ensures
            out@ == u32_le(self.process_id),
    {
        let mut w = BinaryWriter::new();
        w.write_u32(self.process_id);
        assert(w.buf@ =~= u32_le(self.process_id));
        w.buf
    }
}

/// The payload of `LogRead`: which process and how many of its latest
/// entries.
pub struct LogReadPayload {
    pub process_id: u32,
    pub lines: u32,
}

impl LogReadPayload {
    /// Serialises the payload: the id, then the count.
    pub fn encode(&self) -> (out: Vec<u8>)
        ensures
            out@ == u32_le(self.process_id) + u32_le(self.lines),
    {
        let mut w = BinaryWriter::new();
        w.write_u32(self.process_id);
        w.write_u32(self.lines);
        assert(w.buf@ =~= u32_le(self.process_id) + u32_le(self.lines));
        w.buf
    }
}

// ------------------------------------------------------------------
// Payloads sent by the daemon
// ------------------------------------------------------------------
/// What a scale request did: how many instances it started and stopped.
#[derive(Debug, Clone)]
pub struct ScaleResult {
    pub started: u32,
    pub stopped: u32,
}

/// Reads a scale result: two `u32`.
pub open spec fn parse_scale_result(data: Seq<u8>) -> Result<(u32, u32), Seq<char>> {
    let started = parse_u32(data);
    let stopped = parse_u32(rest(started));
    if started is Err {
        Err(fault(started))
    } else if stopped is Err {
        Err(fault(stopped))
    } else {
        Ok((val(started), val(stopped)))
    }
}

impl ScaleResult {
    /// Reads a scale result; bytes after it are ignored.
    pub fn decode(data: &[u8]) -> (r: Result<Self, VelosError>)
        ensures
            match parse_scale_result(data@) {
                Ok((started, stopped)) => r matches Ok(x) && x.started == started && x.stopped
                    == stopped,
                Err(m) => r matches Err(e) && e.is_protocol(m),
            },
    {
        let mut r = BinaryReader::new(data);
        Ok(Self { started: r.read_u32()?, stopped: r.read_u32()? })
    }
}

/// The answer to `ProcessStart`: the id assigned to the new process.
pub struct StartResult {
    pub id: u32,
}

impl StartResult {
    /// Reads the assigned id; bytes after it are ignored.
    pub fn decode(data: &[u8]) -> (r: Result<Self, VelosError>)
        ensures
            match parse_u32(data@) {
                Ok((id, _)) => r matches Ok(x) && x.id == id,
                Err(m) => r matches Err(e) && e.is_protocol(m),
            },
    {
        let mut r = BinaryReader::new(data);
        Ok(Self { id: r.read_u32()? })
    }
}

/// The answer to `StateLoad`: how many saved processes were started again.
#[derive(Debug, Clone)]
pub struct StateLoadResult {
    pub count: u32,
}

impl StateLoadResult {
    /// Reads the count; an empty payload stands for zero.
    pub fn decode(data: &[u8]) -> (r: Result<Self, VelosError>)
        ensures
            data@.len() == 0 ==> (r matches Ok(x) && x.count == 0),
            data@.len() != 0 ==> match parse_u32(data@) {
                Ok((count, _)) => r matches Ok(x) && x.count == count,
                Err(m) => r matches Err(e) && e.is_protocol(m),
            },
    {
        if data.len() == 0 {
            return Ok(Self { count: 0 });
        }
        let mut r = BinaryReader::new(data);
        Ok(Self { count: r.read_u32()? })
    }
}

/// The name of a status byte in listings.
pub open spec fn status_name(status: u8) -> Seq<char> {
    if status == 0 {
        "stopped"@
    } else if status == 1 {
        "running"@
    } else if status == 2 {
        "errored"@
    } else if status == 3 {
        "starting"@
    } else {
        "unknown"@
    }
}

/// The view of each element of a sequence.
pub open spec fn views<T: View>(s: Seq<T>) -> Seq<T::V> {
    s.map_values(|t: T| t@)
}

/// Puts `head` in front of the successful result `tail`.
pub open spec fn prepend<V>(head: Seq<V>, tail: Result<Seq<V>, Seq<char>>) -> Result<
    Seq<V>,
    Seq<char>,
> {
    match tail {
        Ok(items) => Ok(head + items),
        Err(m) => Err(m),
    }
}

/// One line of the process list.
#[derive(Debug, Clone)]
pub struct ProcessInfo {
    pub id: u32,
    pub name: String,
    pub pid: u32,
    pub status: u8,
    pub memory_bytes: u64,
    pub uptime_ms: u64,
    pub restart_count: u32,
}

/// The mathematical content of a [`ProcessInfo`]: strings as character sequences.
pub struct ProcessInfoView {
    pub id: u32,
    pub name: Seq<char>,
    pub pid: u32,
    pub status: u8,
    pub memory_bytes: u64,
    pub uptime_ms: u64,
    pub restart_count: u32,
}

impl View for ProcessInfo {
    type V = ProcessInfoView;

    open spec fn view(&self) -> ProcessInfoView {
        ProcessInfoView {
            id: self.id,
            name: self.name@,
            pid: self.pid,
            status: self.status,
            memory_bytes: self.memory_bytes,
            uptime_ms: self.uptime_ms,
            restart_count: self.restart_count,
        }
    }
}

impl ProcessInfo {
    /// The name of the status byte: 0 stopped, 1 running, 2 errored,
    /// 3 starting, anything else unknown.
    pub fn status_str(&self) -> (s: &'static str)
        ensures
            s@ == status_name(self.status),
    {
        match self.status {
            0 => "stopped",
            1 => "running",
            2 => "errored",
            3 => "starting",
            _ => "unknown",
        }
    }
}

/// Reads one entry of the process list.
pub open spec fn parse_info(s: Seq<u8>) -> Parsed<ProcessInfoView> {
    let id = parse_u32(s);
    let name = parse_string(rest(id));
    let pid = parse_u32(rest(name));
    let status = parse_u8(rest(pid));
    let memory_bytes = parse_u64(rest(status));
    let uptime_ms = parse_u64(rest(memory_bytes));
    let restart_count = parse_u32(rest(uptime_ms));
    if id is Err {
        Err(fault(id))
    } else if name is Err {
        Err(fault(name))
    } else if pid is Err {
        Err(fault(pid))
    } else if status is Err {
        Err(fault(status))
    } else if memory_bytes is Err {
        Err(fault(memory_bytes))
    } else if uptime_ms is Err {
        Err(fault(uptime_ms))
    } else if restart_count is Err {
        Err(fault(restart_count))
    } else {
        Ok(
            (
                ProcessInfoView {
                    id: val(id),
                    name: val(name),
                    pid: val(pid),
                    status: val(status),
                    memory_bytes: val(memory_bytes),
                    uptime_ms: val(uptime_ms),
                    restart_count: val(restart_count),
                },
                rest(restart_count),
            ),
        )
    }
}

/// Reads `n` entries of the process list, one after the other.
pub open spec fn parse_infos(s: Seq<u8>, n: nat) -> Result<Seq<ProcessInfoView>, Seq<char>>
    decreases n,
{
    if n == 0 {
        Ok(Seq::empty())
    } else {
        match parse_info(s) {
            Err(m) => Err(m),
            Ok((p, rest)) => prepend(seq![p], parse_infos(rest, (n - 1) as nat)),
        }
    }
}

/// Reads a process list: a count, then that many entries.
pub open spec fn parse_process_list(data: Seq<u8>) -> Result<Seq<ProcessInfoView>, Seq<char>> {
    match parse_u32(data) {
        Err(m) => Err(m),
        Ok((count, rest)) => parse_infos(rest, count as nat),
    }
}

/// Reads one value with `r`, as [`parse_info`] describes.
fn read_info(r: &mut BinaryReader) -> (res: Result<ProcessInfo, VelosError>)
    ensures
        match parse_info(old(r)@) {
            Ok((v, rest)) => res matches Ok(x) && x@ == v && final(r)@ == rest,
            Err(m) => res matches Err(e) && e.is_protocol(m),
        },
{
    let id: u32 = r.read_u32()?;
    let name: String = r.read_string()?;
    let pid: u32 = r.read_u32()?;
    let status: u8 = r.read_u8()?;
    let memory_bytes: u64 = r.read_u64()?;
    let uptime_ms: u64 = r.read_u64()?;
    let restart_count: u32 = r.read_u32()?;
    Ok(ProcessInfo {
        id,
        name,
        pid,
        status,
        memory_bytes,
        uptime_ms,
        restart_count,
    })
}

/// Decodes the answer to `ProcessList`. Fails with the protocol error of
/// the first field that cannot be read; bytes after the last entry are
/// ignored.
pub fn decode_process_list(data: &[u8]) -> (r: Result<Vec<ProcessInfo>, VelosError>)
    ensures
        match parse_process_list(data@) {
            Ok(items) => r matches Ok(v) && views(v@) == items,
            Err(m) => r matches Err(e) && e.is_protocol(m),
        },
{
    let mut r = BinaryReader::new(data);
    let count: u32 = r.read_u32()?;
    let mut procs: Vec<ProcessInfo> = Vec::new();
    let mut i: u32 = 0;
    while i < count
        invariant
            i <= count,
            parse_process_list(data@) == prepend(views(procs@), parse_infos(r@, (count - i) as nat)),
        decreases count - i,
    {
        let ghost done = views(procs@);
        let p = read_info(&mut r)?;
        procs.push(p);
        i += 1;
        proof {
            let tail = parse_infos(r@, (count - i) as nat);
            assert(views(procs@) =~= done + seq![p@]);
            assert(prepend(done, prepend(seq![p@], tail)) == prepend(views(procs@), tail)) by {
                if tail is Ok {
                    assert(done + (seq![p@] + tail->Ok_0) =~= views(procs@) + tail->Ok_0);
                }
            }
        }
    }
    proof {
        assert(views(procs@) + Seq::<ProcessInfoView>::empty() =~= views(procs@));
    }
    Ok(procs)
}

/// Everything the daemon reports about one process.
#[derive(Debug, Clone)]
pub struct ProcessDetail {
    pub id: u32,
    pub name: String,
    pub pid: u32,
    pub status: u8,
    pub memory_bytes: u64,
    pub uptime_ms: u64,
    pub restart_count: u32,
    pub consecutive_crashes: u32,
    pub last_restart_ms: u64,
    pub script: String,
    pub cwd: String,
    pub interpreter: String,
    pub kill_timeout_ms: u32,
    pub autorestart: bool,
    pub max_restarts: i32,
    pub min_uptime_ms: u64,
    pub restart_delay_ms: u32,
    pub exp_backoff: bool,
    pub max_memory_restart: u64,
    pub watch: bool,
    pub cron_restart: String,
    pub wait_ready: bool,
    pub shutdown_with_message: bool,
}

/// The mathematical content of a [`ProcessDetail`]: strings as character sequences.
pub struct ProcessDetailView {
    pub id: u32,
    pub name: Seq<char>,
    pub pid: u32,
    pub status: u8,
    pub memory_bytes: u64,
    pub uptime_ms: u64,
    pub restart_count: u32,
    pub consecutive_crashes: u32,
    pub last_restart_ms: u64,
    pub script: Seq<char>,
    pub cwd: Seq<char>,
    pub interpreter: Seq<char>,
    pub kill_timeout_ms: u32,
    pub autorestart: bool,
    pub max_restarts: i32,
    pub min_uptime_ms: u64,
    pub restart_delay_ms: u32,
    pub exp_backoff: bool,
    pub max_memory_restart: u64,
    pub watch: bool,
    pub cron_restart: Seq<char>,
    pub wait_ready: bool,
    pub shutdown_with_message: bool,
}

impl View for ProcessDetail {
    type V = ProcessDetailView;

    open spec fn view(&self) -> ProcessDetailView {
        ProcessDetailView {
            id: self.id,
            name: self.name@,
            pid: self.pid,
            status: self.status,
            memory_bytes: self.memory_bytes,
            uptime_ms: self.uptime_ms,
            restart_count: self.restart_count,
            consecutive_crashes: self.consecutive_crashes,
            last_restart_ms: self.last_restart_ms,
            script: self.script@,
            cwd: self.cwd@,
            interpreter: self.interpreter@,
            kill_timeout_ms: self.kill_timeout_ms,
            autorestart: self.autorestart,
            max_restarts: self.max_restarts,
            min_uptime_ms: self.min_uptime_ms,
            restart_delay_ms: self.restart_delay_ms,
            exp_backoff: self.exp_backoff,
            max_memory_restart: self.max_memory_restart,
            watch: self.watch,
            cron_restart: self.cron_restart@,
            wait_ready: self.wait_ready,
            shutdown_with_message: self.shutdown_with_message,
        }
    }
}

impl ProcessDetail {
    /// The name of the status byte: 0 stopped, 1 running, 2 errored,
    /// 3 starting, anything else unknown.
    pub fn status_str(&self) -> (s: &'static str)
        ensures
            s@ == status_name(self.status),
    {
        match self.status {
            0 => "stopped",
            1 => "running",
            2 => "errored",
            3 => "starting",
            _ => "unknown",
        }
    }
}

/// Reads a process detail: identity and runtime counters first, then the
/// configuration.
pub open spec fn parse_detail(s: Seq<u8>) -> Parsed<ProcessDetailView> {
    let id = parse_u32(s);
    let name = parse_string(rest(id));
    let pid = parse_u32(rest(name));
    let status = parse_u8(rest(pid));
    let memory_bytes = parse_u64(rest(status));
    let uptime_ms = parse_u64(rest(memory_bytes));
    let restart_count = parse_u32(rest(uptime_ms));
    let consecutive_crashes = parse_u32(rest(restart_count));
    let last_restart_ms = parse_u64(rest(consecutive_crashes));
    let script = parse_string(rest(last_restart_ms));
    let cwd = parse_string(rest(script));
    let interpreter = parse_string(rest(cwd));
    let kill_timeout_ms = parse_u32(rest(interpreter));
    let autorestart = parse_bool(rest(kill_timeout_ms));
    let max_restarts = parse_i32(rest(autorestart));
    let min_uptime_ms = parse_u64(rest(max_restarts));
    let restart_delay_ms = parse_u32(rest(min_uptime_ms));
    let exp_backoff = parse_bool(rest(restart_delay_ms));
    let max_memory_restart = parse_u64(rest(exp_backoff));
    let watch = parse_bool(rest(max_memory_restart));
    let cron_restart = parse_string(rest(watch));
    let wait_ready = parse_bool(rest(cron_restart));
    let shutdown_with_message = parse_bool(rest(wait_ready));
    if id is Err {
        Err(fault(id))
    } else if name is Err {
        Err(fault(name))
    } else if pid is Err {
        Err(fault(pid))
    } else if status is Err {
        Err(fault(status))
    } else if memory_bytes is Err {
        Err(fault(memory_bytes))
    } else if uptime_ms is Err {
        Err(fault(uptime_ms))
    } else if restart_count is Err {
        Err(fault(restart_count))
    } else if consecutive_crashes is Err {
        Err(fault(consecutive_crashes))
    } else if last_restart_ms is Err {
        Err(fault(last_restart_ms))
    } else if script is Err {
        Err(fault(script))
    } else if cwd is Err {
        Err(fault(cwd))
    } else if interpreter is Err {
        Err(fault(interpreter))
    } else if kill_timeout_ms is Err {
        Err(fault(kill_timeout_ms))
    } else if autorestart is Err {
        Err(fault(autorestart))
    } else if max_restarts is Err {
        Err(fault(max_restarts))
    } else if min_uptime_ms is Err {
        Err(fault(min_uptime_ms))
    } else if restart_delay_ms is Err {
        Err(fault(restart_delay_ms))
    } else if exp_backoff is Err {
        Err(fault(exp_backoff))
    } else if max_memory_restart is Err {
        Err(fault(max_memory_restart))
    } else if watch is Err {
        Err(fault(watch))
    } else if cron_restart is Err {
        Err(fault(cron_restart))
    } else if wait_ready is Err {
        Err(fault(wait_ready))
    } else if shutdown_with_message is Err {
        Err(fault(shutdown_with_message))
    } else {
        Ok(
            (
                ProcessDetailView {
                    id: val(id),
                    name: val(name),
                    pid: val(pid),
                    status: val(status),
                    memory_bytes: val(memory_bytes),
                    uptime_ms: val(uptime_ms),
                    restart_count: val(restart_count),
                    consecutive_crashes: val(consecutive_crashes),
                    last_restart_ms: val(last_restart_ms),
                    script: val(script),
                    cwd: val(cwd),
                    interpreter: val(interpreter),
                    kill_timeout_ms: val(kill_timeout_ms),
                    autorestart: val(autorestart),
                    max_restarts: val(max_restarts),
                    min_uptime_ms: val(min_uptime_ms),
                    restart_delay_ms: val(restart_delay_ms),
                    exp_backoff: val(exp_backoff),
                    max_memory_restart: val(max_memory_restart),
                    watch: val(watch),
                    cron_restart: val(cron_restart),
                    wait_ready: val(wait_ready),
                    shutdown_with_message: val(shutdown_with_message),
                },
                rest(shutdown_with_message),
            ),
        )
    }
}

/// Reads one value with `r`, as [`parse_detail`] describes.
fn read_detail(r: &mut BinaryReader) -> (res: Result<ProcessDetail, VelosError>)
    ensures
        match parse_detail(old(r)@) {
            Ok((v, rest)) => res matches Ok(x) && x@ == v && final(r)@ == rest,
            Err(m) => res matches Err(e) && e.is_protocol(m),
        },
{
    let id: u32 = r.read_u32()?;
    let name: String = r.read_string()?;
    let pid: u32 = r.read_u32()?;
    let status: u8 = r.read_u8()?;
    let memory_bytes: u64 = r.read_u64()?;
    let uptime_ms: u64 = r.read_u64()?;
    let restart_count: u32 = r.read_u32()?;
    let consecutive_crashes: u32 = r.read_u32()?;
    let last_restart_ms: u64 = r.read_u64()?;
    let script: String = r.read_string()?;
    let cwd: String = r.read_string()?;
    let interpreter: String = r.read_string()?;
    let kill_timeout_ms: u32 = r.read_u32()?;
    let autorestart: bool = r.read_u8()? != 0;
    let max_restarts: i32 = r.read_i32()?;
    let min_uptime_ms: u64 = r.read_u64()?;
    let restart_delay_ms: u32 = r.read_u32()?;
    let exp_backoff: bool = r.read_u8()? != 0;
    let max_memory_restart: u64 = r.read_u64()?;
    let watch: bool = r.read_u8()? != 0;
    let cron_restart: String = r.read_string()?;
    let wait_ready: bool = r.read_u8()? != 0;
    let shutdown_with_message: bool = r.read_u8()? != 0;
    Ok(ProcessDetail {
        id,
        name,
        pid,
        status,
        memory_bytes,
        uptime_ms,
        restart_count,
        consecutive_crashes,
        last_restart_ms,
        script,
        cwd,
        interpreter,
        kill_timeout_ms,
        autorestart,
        max_restarts,
        min_uptime_ms,
        restart_delay_ms,
        exp_backoff,
        max_memory_restart,
        watch,
        cron_restart,
        wait_ready,
        shutdown_with_message,
    })
}

/// Decodes the answer to `ProcessInfo`. Fails with the protocol error of
/// the first field that cannot be read; bytes after the last field are
/// ignored.
pub fn decode_process_detail(data: &[u8]) -> (r: Result<ProcessDetail, VelosError>)
    ensures
        match parse_detail(data@) {
            Ok((v, _)) => r matches Ok(x) && x@ == v,
            Err(m) => r matches Err(e) && e.is_protocol(m),
        },
{
    let mut r = BinaryReader::new(data);
    read_detail(&mut r)
}

/// One line of a process's output as the daemon recorded it.
#[derive(Debug, Clone)]
pub struct LogEntry {
    pub timestamp_ms: u64,
    pub level: u8,
    pub stream: u8,
    pub message: String,
}

/// The mathematical content of a [`LogEntry`]: strings as character sequences.
pub struct LogEntryView {
    pub timestamp_ms: u64,
    pub level: u8,
    pub stream: u8,
    pub message: Seq<char>,
}

impl View for LogEntry {
    type V = LogEntryView;

    open spec fn view(&self) -> LogEntryView {
        LogEntryView {
            timestamp_ms: self.timestamp_ms,
            level: self.level,
            stream: self.stream,
            message: self.message@,
        }
    }
}

/// Reads one log entry.
pub open spec fn parse_entry(s: Seq<u8>) -> Parsed<LogEntryView> {
    let timestamp_ms = parse_u64(s);
    let level = parse_u8(rest(timestamp_ms));
    let stream = parse_u8(rest(level));
    let message = parse_string(rest(stream));
    if timestamp_ms is Err {
        Err(fault(timestamp_ms))
    } else if level is Err {
        Err(fault(level))
    } else if stream is Err {
        Err(fault(stream))
    } else if message is Err {
        Err(fault(message))
    } else {
        Ok(
            (
                LogEntryView {
                    timestamp_ms: val(timestamp_ms),
                    level: val(level),
                    stream: val(stream),
                    message: val(message),
                },
                rest(message),
            ),
        )
    }
}

/// Reads `n` log entries, one after the other.
pub open spec fn parse_entries(s: Seq<u8>, n: nat) -> Result<Seq<LogEntryView>, Seq<char>>
    decreases n,
{
    if n == 0 {
        Ok(Seq::empty())
    } else {
        match parse_entry(s) {
            Err(m) => Err(m),
            Ok((p, rest)) => prepend(seq![p], parse_entries(rest, (n - 1) as nat)),
        }
    }
}

/// Reads a batch of log entries: a count, then that many entries.
pub open spec fn parse_log_entries(data: Seq<u8>) -> Result<Seq<LogEntryView>, Seq<char>> {
    match parse_u32(data) {
        Err(m) => Err(m),
        Ok((count, rest)) => parse_entries(rest, count as nat),
    }
}

/// Reads one value with `r`, as [`parse_entry`] describes.
fn read_entry(r: &mut BinaryReader) -> (res: Result<LogEntry, VelosError>)
    ensures
        match parse_entry(old(r)@) {
            Ok((v, rest)) => res matches Ok(x) && x@ == v && final(r)@ == rest,
            Err(m) => res matches Err(e) && e.is_protocol(m),
        },
{
    let timestamp_ms: u64 = r.read_u64()?;
    let level: u8 = r.read_u8()?;
    let stream: u8 = r.read_u8()?;
    let message: String = r.read_string()?;
    Ok(LogEntry {
        timestamp_ms,
        level,
        stream,
        message,
    })
}

/// Decodes the answer to `LogRead`. Fails with the protocol error of the
/// first field that cannot be read; bytes after the last entry are ignored.
pub fn decode_log_entries(data: &[u8]) -> (r: Result<Vec<LogEntry>, VelosError>)
    ensures
        match parse_log_entries(data@) {
            Ok(items) => r matches Ok(v) && views(v@) == items,
            Err(m) => r matches Err(e) && e.is_protocol(m),
        },
{
    let mut r = BinaryReader::new(data);
    let count: u32 = r.read_u32()?;
    let mut entries: Vec<LogEntry> = Vec::new();
    let mut i: u32 = 0;
    while i < count
        invariant
            i <= count,
            parse_log_entries(data@) == prepend(
                views(entries@),
                parse_entries(r@, (count - i) as nat),
            ),
        decreases count - i,
    {
        let ghost done = views(entries@);
        let p = read_entry(&mut r)?;
        entries.push(p);
        i += 1;
        proof {
            let tail = parse_entries(r@, (count - i) as nat);
            assert(views(entries@) =~= done + seq![p@]);
            assert(prepend(done, prepend(seq![p@], tail)) == prepend(views(entries@), tail)) by {
                if tail is Ok {
                    assert(done + (seq![p@] + tail->Ok_0) =~= views(entries@) + tail->Ok_0);
                }
            }
        }
    }
    proof {
        assert(views(entries@) + Seq::<LogEntryView>::empty() =~= views(entries@));
    }
    Ok(entries)
}

} // verus!
