//! The client's side of the protocol: a fixed number of persistent
//! connections to one socket, lent to one caller at a time.
//!
//! The client keeps the books; the sockets themselves are held by whoever
//! does the reading and writing, under the numbers that the client hands out.

use crate::umbral_socket::command::{error_of, is_success, SendError};
use crate::umbral_socket::frame::{
    encode_request, request_bytes, request_fits, FrameError, Response,
};
use vstd::prelude::*;

verus! {

/// A call that is under way: the connection that was borrowed for it and
/// the frame to write on it.
#[derive(Debug, PartialEq, Eq)]
pub struct Call {
    pub connection: usize,
    pub frame: Vec<u8>,
}

/// How the start of a call went.
#[derive(Debug, PartialEq, Eq)]
pub enum Begin {
    /// Every connection is lent: wait until one returns, then begin again.
    Busy,
    /// A connection was borrowed and the frame is ready to be written.
    Framed(Call),
    /// The request cannot be framed; no connection was borrowed.
    Refused(FrameError),
}

/// What came back from a call: the status and, where one was asked for, the
/// decoded answer.
#[derive(Debug, PartialEq, Eq)]
pub struct UmbralResponse<T> {
    pub status: u16,
    pub response: Option<T>,
}

impl<T> UmbralResponse<T> {
    /// A response of `status` with `response` as its answer.
    pub fn new(status: u16, response: Option<T>) -> (made: UmbralResponse<T>)
        ensures
            made.status == status,
            made.response == response,
    {
        UmbralResponse { status, response }
    }
}

/// The pool of connections to one socket path.
pub struct UmbralClient {
    socket: String,
    lent: Vec<bool>,
}

impl UmbralClient {
    /// The path of the socket that the connections lead to.
    pub closed spec fn socket_path(&self) -> Seq<char> {
        self.socket@
    }

    /// For each connection, whether a caller holds it.
    pub closed spec fn lent(&self) -> Seq<bool> {
        self.lent@
    }

    /// A pool of `connections` connections to `socket`, all idle. The size
    /// never changes afterwards.
    pub fn new(socket: &str, connections: usize) -> (client: UmbralClient)
        ensures
            client.socket_path() == socket@,
            client.lent() == Seq::new(connections as nat, |i: int| false),
    {
        let mut lent: Vec<bool> = Vec::new();
        let mut i: usize = 0;
        while i < connections
            invariant
                i <= connections,
                lent@ == Seq::new(i as nat, |j: int| false),
            decreases connections - i,
        {
            lent.push(false);
            assert(lent@ =~= Seq::new((i + 1) as nat, |j: int| false));
            i += 1;
        }
        UmbralClient { socket: socket.to_owned(), lent }
    }

    /// The path of the socket.
    pub fn socket(&self) -> (path: &str)
        ensures
            path@ == self.socket_path(),
    {
        self.socket.as_str()
    }

    /// The number of connections.
    pub fn size(&self) -> (size: usize)
        ensures
            size == self.lent().len(),
    {
        self.lent.len()
    }

    /// Borrows an idle connection: the one with the lowest number. `None`
    /// means that every connection is lent and the caller has to wait.
    pub fn acquire(&mut self) -> (connection: Option<usize>)
        ensures
            final(self).socket_path() == old(self).socket_path(),
            connection is None <==> forall|i: int|
                0 <= i < old(self).lent().len() ==> old(self).lent()[i],
            connection is None ==> final(self).lent() == old(self).lent(),
            connection matches Some(number) ==> {
                &&& number < old(self).lent().len()
                &&& !old(self).lent()[number as int]
                &&& forall|i: int| 0 <= i < number ==> old(self).lent()[i]
                &&& final(self).lent() == old(self).lent().update(number as int, true)
            },
    {
        let mut i: usize = 0;
        while i < self.lent.len()
            invariant
                i <= self.lent.len(),
                self.lent@ == old(self).lent@,
                self.socket == old(self).socket,
                forall|j: int| 0 <= j < i ==> self.lent@[j],
            decreases self.lent.len() - i,
        {
            if !self.lent[i] {
                assert(!old(self).lent()[i as int]);
                self.lent.set(i, true);
                return Some(i);
            }
            i += 1;
        }
        None
    }

    /// Starts a call: frames the request and borrows the idle connection
    /// with the lowest number for it.
    pub fn begin(&mut self, command: &[u8], payload: &[u8]) -> (begin: Begin)
        ensures
            final(self).socket_path() == old(self).socket_path(),
            !request_fits(command@, payload@) ==> begin is Refused,
            begin is Refused ==> final(self).lent() == old(self).lent(),
            begin matches Begin::Refused(error) ==> !request_fits(command@, payload@) && error
                == if command@.len() > 0xffff {
                FrameError::CommandTooLong
            } else {
                FrameError::PayloadTooLong
            },
            begin is Busy ==> final(self).lent() == old(self).lent() && forall|i: int|
                0 <= i < old(self).lent().len() ==> old(self).lent()[i],
            begin matches Begin::Framed(call) ==> {
                &&& call.frame@ == request_bytes(command@, payload@)
                &&& call.connection < old(self).lent().len()
                &&& !old(self).lent()[call.connection as int]
                &&& forall|i: int| 0 <= i < call.connection ==> old(self).lent()[i]
                &&& final(self).lent() == old(self).lent().update(call.connection as int, true)
            },
    {
        match encode_request(command, payload) {
            Err(error) => Begin::Refused(error),
            Ok(frame) => match self.acquire() {
                None => Begin::Busy,
                Some(connection) => Begin::Framed(Call { connection, frame }),
            },
        }
    }

    /// Ends a call: the connection returns to the pool, and the caller gets
    /// the payload of a success or the error. `None` as `answer` stands for
    /// a connection that broke before a whole response came. Nothing is
    /// tried again here.
    pub fn finish(&mut self, connection: usize, answer: Option<Response>) -> (result: Result<
        Vec<u8>,
        SendError,
    >)
        ensures
            final(self).socket_path() == old(self).socket_path(),
            final(self).lent() == if connection < old(self).lent().len() {
                old(self).lent().update(connection as int, false)
            } else {
                old(self).lent()
            },
            result is Ok <==> answer is Some && is_success(answer->0.status),
            result matches Ok(bytes) ==> bytes@ == answer->0.payload@,
            result matches Err(error) ==> error == match answer {
                Some(response) => error_of(response.status),
                None => SendError::Transport,
            },
    {
        let returned = self.release(connection);
        assert(self.lent() =~= if connection < old(self).lent().len() {
            old(self).lent().update(connection as int, false)
        } else {
            old(self).lent()
        });
        match answer {
            Some(response) => response.into_result(),
            None => Err(SendError::Transport),
        }
    }

    /// Returns a borrowed connection to the pool. The answer is whether
    /// `connection` was lent; if it was not, nothing changes.
    pub fn release(&mut self, connection: usize) -> (returned: bool)
        ensures
            final(self).socket_path() == old(self).socket_path(),
            returned == (connection < old(self).lent().len() && old(self).lent()[connection
                as int]),
            returned ==> final(self).lent() == old(self).lent().update(connection as int, false),
            !returned ==> final(self).lent() == old(self).lent(),
    {
        if connection < self.lent.len() && self.lent[connection] {
            self.lent.set(connection, false);
            true
        } else {
            false
        }
    }
}

/// How many of the connections are lent.
pub open spec fn lent_count(lent: Seq<bool>) -> nat {
    lent.filter(|held: bool| held).len()
}

/// Lending an idle connection raises the number of lent connections by one
/// and returning a lent one lowers it by one; it never passes the size of
/// the pool.
pub proof fn lemma_lent_count(lent: Seq<bool>, connection: int)
    requires
        0 <= connection < lent.len(),
    ensures
        lent_count(lent) <= lent.len(),
        !lent[connection] ==> lent_count(lent.update(connection, true)) == lent_count(lent) + 1,
        lent[connection] ==> lent_count(lent.update(connection, false)) + 1 == lent_count(lent),
{
    let held = |b: bool| b;
    lent.lemma_filter_len(held);
    let front = lent.take(connection);
    let back = lent.skip(connection + 1);
    let single = seq![lent[connection]];
    assert(lent =~= front + single + back);
    Seq::filter_distributes_over_add(front + single, back, held);
    Seq::filter_distributes_over_add(front, single, held);
    let flipped = lent.update(connection, !lent[connection]);
    let other = seq![!lent[connection]];
    assert(flipped =~= front + other + back);
    Seq::filter_distributes_over_add(front + other, back, held);
    Seq::filter_distributes_over_add(front, other, held);
    lemma_filter_single(true);
    lemma_filter_single(false);
}

proof fn lemma_filter_single(value: bool)
    ensures
        seq![value].filter(|b: bool| b).len() == if value {
            1nat
        } else {
            0nat
        },
{
    let held = |b: bool| b;
    reveal(Seq::filter);
    assert(seq![value].drop_last() =~= Seq::<bool>::empty());
    assert(Seq::<bool>::empty().filter(held) =~= Seq::<bool>::empty());
}

} // verus!
