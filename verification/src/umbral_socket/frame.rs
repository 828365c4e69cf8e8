//! The frames of the protocol.
//!
//! A request is a two-byte length of the command token, a four-byte length
//! of the payload, the token and the payload. A response is a two-byte
//! status code, a four-byte length of the payload and the payload. Every
//! number is big-endian. A frame so delimits itself: a reader knows after six
//! bytes how many more belong to it.

use vstd::prelude::*;

verus! {

/// The length of the fixed part of every frame.
pub const HEADER: usize = 6;

/// The longest command token, in bytes.
pub const MAX_COMMAND: usize = 0xffff;

/// The longest payload, in bytes.
pub const MAX_PAYLOAD: u64 = 0xffff_ffff;

/// A request on the wire: a command and what it is to work on.
#[derive(Debug, PartialEq, Eq)]
pub struct Request {
    pub command: Vec<u8>,
    pub payload: Vec<u8>,
}

/// A response on the wire: how the command ended and what it returned.
#[derive(Debug, PartialEq, Eq)]
pub struct Response {
    pub status: u16,
    pub payload: Vec<u8>,
}

/// Why a frame cannot be written.
#[derive(Clone, Copy, Debug, PartialEq, Eq, Structural)]
pub enum FrameError {
    /// The command token is longer than two bytes can count.
    CommandTooLong,
    /// The payload is longer than four bytes can count, or the frame would
    /// be longer than memory can address.
    PayloadTooLong,
}

/// `n` in two bytes, the high byte first.
pub open spec fn be16(n: int) -> Seq<u8> {
    seq![(n / 0x100) as u8, (n % 0x100) as u8]
}

/// `n` in four bytes, the highest byte first.
pub open spec fn be32(n: int) -> Seq<u8> {
    seq![
        (n / 0x100_0000) as u8,
        (n / 0x1_0000 % 0x100) as u8,
        (n / 0x100 % 0x100) as u8,
        (n % 0x100) as u8,
    ]
}

/// The number that the two bytes of `bytes` from `at` on spell.
pub open spec fn from_be16(bytes: Seq<u8>, at: int) -> int {
    bytes[at] * 0x100 + bytes[at + 1]
}

/// The number that the four bytes of `bytes` from `at` on spell.
pub open spec fn from_be32(bytes: Seq<u8>, at: int) -> int {
    bytes[at] * 0x100_0000 + bytes[at + 1] * 0x1_0000 + bytes[at + 2] * 0x100 + bytes[at + 3]
}

/// Whether a request of `command` and `payload` can be framed.
pub open spec fn request_fits(command: Seq<u8>, payload: Seq<u8>) -> bool {
    &&& command.len() <= MAX_COMMAND
    &&& payload.len() <= MAX_PAYLOAD
    &&& HEADER + command.len() + payload.len() <= usize::MAX
}

/// Whether a response with `payload` can be framed.
pub open spec fn response_fits(payload: Seq<u8>) -> bool {
    &&& payload.len() <= MAX_PAYLOAD
    &&& HEADER + payload.len() <= usize::MAX
}

/// The frame of a request.
pub open spec fn request_bytes(command: Seq<u8>, payload: Seq<u8>) -> Seq<u8> {
    be16(command.len() as int) + be32(payload.len() as int) + command + payload
}

/// The frame of a response.
pub open spec fn response_bytes(status: u16, payload: Seq<u8>) -> Seq<u8> {
    be16(status as int) + be32(payload.len() as int) + payload
}

/// The length of the request frame that `buffer` begins with, as its header
/// announces it. It means something only once the header is there.
pub open spec fn request_length(buffer: Seq<u8>) -> int {
    HEADER + from_be16(buffer, 0) + from_be32(buffer, 2)
}

/// The length of the response frame that `buffer` begins with.
pub open spec fn response_length(buffer: Seq<u8>) -> int {
    HEADER + from_be32(buffer, 2)
}

/// Whether `buffer` begins with a whole request frame.
pub open spec fn holds_request(buffer: Seq<u8>) -> bool {
    buffer.len() >= HEADER && buffer.len() >= request_length(buffer)
}

/// Whether `buffer` begins with a whole response frame.
pub open spec fn holds_response(buffer: Seq<u8>) -> bool {
    buffer.len() >= HEADER && buffer.len() >= response_length(buffer)
}

/// The command of the request frame that `buffer` begins with.
pub open spec fn command_in(buffer: Seq<u8>) -> Seq<u8> {
    buffer.subrange(HEADER as int, HEADER + from_be16(buffer, 0))
}

/// The payload of the request frame that `buffer` begins with.
pub open spec fn request_payload_in(buffer: Seq<u8>) -> Seq<u8> {
    buffer.subrange(HEADER + from_be16(buffer, 0), request_length(buffer))
}

/// The status of the response frame that `buffer` begins with.
pub open spec fn status_in(buffer: Seq<u8>) -> int {
    from_be16(buffer, 0)
}

/// The payload of the response frame that `buffer` begins with.
pub open spec fn response_payload_in(buffer: Seq<u8>) -> Seq<u8> {
    buffer.subrange(HEADER as int, response_length(buffer))
}

proof fn lemma_be16_round_trip(n: int)
    requires
        0 <= n <= 0xffff,
    ensures
        be16(n).len() == 2,
        from_be16(be16(n), 0) == n,
{
}

proof fn lemma_be32_round_trip(n: int)
    requires
        0 <= n <= 0xffff_ffff,
    ensures
        be32(n).len() == 4,
        from_be32(be32(n), 0) == n,
{
}

fn push_be16(out: &mut Vec<u8>, n: u16)
    ensures
        final(out)@ == old(out)@ + be16(n as int),
{
    out.push((n / 0x100) as u8);
    out.push((n % 0x100) as u8);
    assert(out@ =~= old(out)@ + be16(n as int));
}

fn push_be32(out: &mut Vec<u8>, n: u32)
    ensures
        final(out)@ == old(out)@ + be32(n as int),
{
    out.push((n / 0x100_0000) as u8);
    out.push((n / 0x1_0000 % 0x100) as u8);
    out.push((n / 0x100 % 0x100) as u8);
    out.push((n % 0x100) as u8);
    assert(out@ =~= old(out)@ + be32(n as int));
}

fn read_be16(buffer: &[u8], at: usize) -> (n: u16)
    requires
        at + 2 <= buffer.len(),
    ensures
        n == from_be16(buffer@, at as int),
{
    (buffer[at] as u16) * 0x100 + (buffer[at + 1] as u16)
}

fn read_be32(buffer: &[u8], at: usize) -> (n: u32)
    requires
        at + 4 <= buffer.len(),
    ensures
        n == from_be32(buffer@, at as int),
{
    (buffer[at] as u32) * 0x100_0000 + (buffer[at + 1] as u32) * 0x1_0000 + (buffer[at
        + 2] as u32) * 0x100 + (buffer[at + 3] as u32)
}

fn copy_range(buffer: &[u8], from: usize, to: usize) -> (bytes: Vec<u8>)
    requires
        from <= to <= buffer.len(),
    ensures
        bytes@ == buffer@.subrange(from as int, to as int),
{
    let mut bytes: Vec<u8> = Vec::new();
    let mut i: usize = from;
    while i < to
        invariant
            from <= i <= to <= buffer.len(),
            bytes@ == buffer@.subrange(from as int, i as int),
        decreases to - i,
    {
        bytes.push(buffer[i]);
        i += 1;
    }
    bytes
}

/// Writes the frame of a request.
pub fn encode_request(command: &[u8], payload: &[u8]) -> (frame: Result<Vec<u8>, FrameError>)
    ensures
        frame is Ok <==> request_fits(command@, payload@),
        frame matches Ok(bytes) ==> bytes@ == request_bytes(command@, payload@),
        frame matches Err(error) ==> error == if command@.len() > MAX_COMMAND {
            FrameError::CommandTooLong
        } else {
            FrameError::PayloadTooLong
        },
{
    if command.len() > MAX_COMMAND {
        return Err(FrameError::CommandTooLong);
    }
    if payload.len() as u64 > MAX_PAYLOAD || payload.len() > usize::MAX - HEADER - command.len() {
        return Err(FrameError::PayloadTooLong);
    }
    let mut bytes: Vec<u8> = Vec::new();
    push_be16(&mut bytes, command.len() as u16);
    push_be32(&mut bytes, payload.len() as u32);
    bytes.extend_from_slice(command);
    bytes.extend_from_slice(payload);
    Ok(bytes)
}

/// Writes the frame of a response.
pub fn encode_response(status: u16, payload: &[u8]) -> (frame: Result<Vec<u8>, FrameError>)
    ensures
        frame is Ok <==> response_fits(payload@),
        frame matches Ok(bytes) ==> bytes@ == response_bytes(status, payload@),
        frame matches Err(error) ==> error == FrameError::PayloadTooLong,
{
    if payload.len() as u64 > MAX_PAYLOAD || payload.len() > usize::MAX - HEADER {
        return Err(FrameError::PayloadTooLong);
    }
    let mut bytes: Vec<u8> = Vec::new();
    push_be16(&mut bytes, status);
    push_be32(&mut bytes, payload.len() as u32);
    bytes.extend_from_slice(payload);
    Ok(bytes)
}

/// Reads the request frame that `buffer` begins with and says how many
/// bytes it took. `None` means that the frame is not all there yet; bytes
/// after the frame are left alone.
pub fn decode_request(buffer: &[u8]) -> (read: Option<(Request, usize)>)
    ensures
        read is Some <==> holds_request(buffer@),
        read matches Some((request, consumed)) ==> {
            &&& consumed == request_length(buffer@)
            &&& request.command@ == command_in(buffer@)
            &&& request.payload@ == request_payload_in(buffer@)
        },
{
    if buffer.len() < HEADER {
        return None;
    }
    let command_length = read_be16(buffer, 0) as u64;
    let payload_length = read_be32(buffer, 2) as u64;
    let length: u64 = HEADER as u64 + command_length + payload_length;
    if (buffer.len() as u64) < length {
        return None;
    }
    let payload_from = HEADER + command_length as usize;
    let end = length as usize;
    let command = copy_range(buffer, HEADER, payload_from);
    let payload = copy_range(buffer, payload_from, end);
    Some((Request { command, payload }, end))
}

/// Reads the response frame that `buffer` begins with and says how many
/// bytes it took. `None` means that the frame is not all there yet.
pub fn decode_response(buffer: &[u8]) -> (read: Option<(Response, usize)>)
    ensures
        read is Some <==> holds_response(buffer@),
        read matches Some((response, consumed)) ==> {
            &&& consumed == response_length(buffer@)
            &&& response.status == status_in(buffer@)
            &&& response.payload@ == response_payload_in(buffer@)
        },
{
    if buffer.len() < HEADER {
        return None;
    }
    let status = read_be16(buffer, 0);
    let length: u64 = HEADER as u64 + read_be32(buffer, 2) as u64;
    if (buffer.len() as u64) < length {
        return None;
    }
    let end = length as usize;
    let payload = copy_range(buffer, HEADER, end);
    Some((Response { status, payload }, end))
}

/// A request frame, whatever follows it on the stream, is read back as the
/// command and the payload that were written, and the reader takes exactly
/// the frame's bytes.
pub proof fn lemma_request_round_trip(command: Seq<u8>, payload: Seq<u8>, rest: Seq<u8>)
    requires
        request_fits(command, payload),
    ensures
        holds_request(request_bytes(command, payload) + rest),
        request_length(request_bytes(command, payload) + rest) == request_bytes(
            command,
            payload,
        ).len(),
        command_in(request_bytes(command, payload) + rest) == command,
        request_payload_in(request_bytes(command, payload) + rest) == payload,
{
    let frame = request_bytes(command, payload);
    let stream = frame + rest;
    lemma_be16_round_trip(command.len() as int);
    lemma_be32_round_trip(payload.len() as int);
    assert(from_be16(stream, 0) == from_be16(be16(command.len() as int), 0));
    assert(from_be32(stream, 2) == from_be32(be32(payload.len() as int), 0));
    assert(command_in(stream) =~= command);
    assert(request_payload_in(stream) =~= payload);
}

/// A response frame, whatever follows it on the stream, is read back as the
/// status and the payload that were written, and the reader takes exactly
/// the frame's bytes.
pub proof fn lemma_response_round_trip(status: u16, payload: Seq<u8>, rest: Seq<u8>)
    requires
        response_fits(payload),
    ensures
        holds_response(response_bytes(status, payload) + rest),
        response_length(response_bytes(status, payload) + rest) == response_bytes(
            status,
            payload,
        ).len(),
        status_in(response_bytes(status, payload) + rest) == status,
        response_payload_in(response_bytes(status, payload) + rest) == payload,
{
    let frame = response_bytes(status, payload);
    let stream = frame + rest;
    lemma_be16_round_trip(status as int);
    lemma_be32_round_trip(payload.len() as int);
    assert(from_be16(stream, 0) == from_be16(be16(status as int), 0));
    assert(from_be32(stream, 2) == from_be32(be32(payload.len() as int), 0));
    assert(response_payload_in(stream) =~= payload);
}

/// No proper beginning of a request frame passes for a whole frame: the
/// reader waits until the last byte has come.
pub proof fn lemma_request_prefix_is_incomplete(command: Seq<u8>, payload: Seq<u8>, taken: int)
    requires
        request_fits(command, payload),
        0 <= taken < request_bytes(command, payload).len(),
    ensures
        !holds_request(request_bytes(command, payload).take(taken)),
{
    let frame = request_bytes(command, payload);
    let part = frame.take(taken);
    if taken >= HEADER {
        lemma_request_round_trip(command, payload, Seq::empty());
        assert(frame + Seq::<u8>::empty() =~= frame);
        assert(from_be16(part, 0) == from_be16(frame, 0));
        assert(from_be32(part, 2) == from_be32(frame, 2));
    }
}

/// No proper beginning of a response frame passes for a whole frame.
pub proof fn lemma_response_prefix_is_incomplete(status: u16, payload: Seq<u8>, taken: int)
    requires
        response_fits(payload),
        0 <= taken < response_bytes(status, payload).len(),
    ensures
        !holds_response(response_bytes(status, payload).take(taken)),
{
    let frame = response_bytes(status, payload);
    let part = frame.take(taken);
    if taken >= HEADER {
        lemma_response_round_trip(status, payload, Seq::empty());
        assert(frame + Seq::<u8>::empty() =~= frame);
        assert(from_be32(part, 2) == from_be32(frame, 2));
    }
}

} // verus!
