//! One end of a persistent connection: the bytes that have come in and have
//! not yet been read as frames.
//!
//! The task that owns the socket hands over what it read; the connection
//! gives back one frame at a time, in the order of arrival.

use crate::umbral_socket::frame::{
    command_in, decode_request, decode_response, holds_request, holds_response, request_bytes,
    request_fits, request_length, request_payload_in, response_length, response_payload_in,
    status_in, lemma_request_round_trip, Request, Response,
};
use vstd::prelude::*;

verus! {

/// The unread bytes of one connection.
pub struct Connection {
    buffer: Vec<u8>,
}

impl View for Connection {
    type V = Seq<u8>;

    closed spec fn view(&self) -> Seq<u8> {
        self.buffer@
    }
}

impl Connection {
    /// A connection on which nothing has come in.
    pub fn new() -> (connection: Connection)
        ensures
            connection@ == Seq::<u8>::empty(),
    {
        Connection { buffer: Vec::new() }
    }

    /// Takes in bytes that were read from the socket.
    pub fn receive(&mut self, bytes: &[u8])
        ensures
            final(self)@ == old(self)@ + bytes@,
    {
        self.buffer.extend_from_slice(bytes);
    }

    /// The next request, if all of its frame has come in. The frame's bytes
    /// leave the buffer; what follows them stays.
    pub fn next_request(&mut self) -> (request: Option<Request>)
        ensures
            request is Some <==> holds_request(old(self)@),
            request matches Some(read) ==> {
                &&& read.command@ == command_in(old(self)@)
                &&& read.payload@ == request_payload_in(old(self)@)
                &&& final(self)@ == old(self)@.skip(request_length(old(self)@))
            },
            request is None ==> final(self)@ == old(self)@,
    {
        match decode_request(self.buffer.as_slice()) {
            None => None,
            Some((request, consumed)) => {
                let rest = self.buffer.split_off(consumed);
                self.buffer = rest;
                Some(request)
            },
        }
    }

    /// The next response, if all of its frame has come in.
    pub fn next_response(&mut self) -> (response: Option<Response>)
        ensures
            response is Some <==> holds_response(old(self)@),
            response matches Some(read) ==> {
                &&& read.status == status_in(old(self)@)
                &&& read.payload@ == response_payload_in(old(self)@)
                &&& final(self)@ == old(self)@.skip(response_length(old(self)@))
            },
            response is None ==> final(self)@ == old(self)@,
    {
        match decode_response(self.buffer.as_slice()) {
            None => None,
            Some((response, consumed)) => {
                let rest = self.buffer.split_off(consumed);
                self.buffer = rest;
                Some(response)
            },
        }
    }
}

/// Two requests written one after the other are read one after the other:
/// the first read gives the first request and leaves exactly the second
/// frame, whose read gives the second request and leaves `rest`.
pub proof fn lemma_requests_are_read_in_order(
    first_command: Seq<u8>,
    first_payload: Seq<u8>,
    second_command: Seq<u8>,
    second_payload: Seq<u8>,
    rest: Seq<u8>,
)
    requires
        request_fits(first_command, first_payload),
        request_fits(second_command, second_payload),
    ensures
        ({
            let first = request_bytes(first_command, first_payload);
            let second = request_bytes(second_command, second_payload);
            let stream = first + second + rest;
            let left = stream.skip(request_length(stream));
            &&& holds_request(stream)
            &&& command_in(stream) == first_command
            &&& request_payload_in(stream) == first_payload
            &&& left == second + rest
            &&& holds_request(left)
            &&& command_in(left) == second_command
            &&& request_payload_in(left) == second_payload
            &&& left.skip(request_length(left)) == rest
        }),
{
    let first = request_bytes(first_command, first_payload);
    let second = request_bytes(second_command, second_payload);
    let stream = first + second + rest;
    assert(stream =~= first + (second + rest));
    lemma_request_round_trip(first_command, first_payload, second + rest);
    let left = stream.skip(request_length(stream));
    assert(left =~= second + rest);
    lemma_request_round_trip(second_command, second_payload, rest);
    assert(left.skip(request_length(left)) =~= rest);
}

} // verus!
