//! Commands: their names on the wire, the routes of a server, and the
//! status with which a command ends.

use crate::umbral_socket::frame::{Request, Response};
use vstd::prelude::*;

verus! {

/// The status of a command that was carried out.
pub const STATUS_OK: u16 = 200;

/// The status of a command that no route answers to.
pub const STATUS_UNKNOWN_COMMAND: u16 = 404;

/// The status of a command whose handler failed.
pub const STATUS_HANDLER_FAILED: u16 = 500;

/// The commands of the storage engine.
#[derive(Clone, Copy, Debug, PartialEq, Eq, Structural)]
pub enum Command {
    Save,
    Purge,
    Summary,
}

/// Why a call over the protocol failed.
#[derive(Clone, Copy, Debug, PartialEq, Eq, Structural)]
pub enum SendError {
    /// The connection broke, or a read or write on it failed.
    Transport,
    /// The server has no route for the command.
    UnknownCommand,
    /// The handler failed; the status is what the server sent.
    Handler(u16),
}

/// The name of `command` on the wire: `SAVE`, `PURGE` or `SUMMARY`.
pub open spec fn token_of(command: Command) -> Seq<u8> {
    match command {
        Command::Save => seq![83u8, 65, 86, 69],
        Command::Purge => seq![80u8, 85, 82, 71, 69],
        Command::Summary => seq![83u8, 85, 77, 77, 65, 82, 89],
    }
}

/// Whether `status` says that the command was carried out.
pub open spec fn is_success(status: u16) -> bool {
    200 <= status < 300
}

/// The error that a status other than a success stands for.
pub open spec fn error_of(status: u16) -> SendError {
    if status == STATUS_UNKNOWN_COMMAND {
        SendError::UnknownCommand
    } else {
        SendError::Handler(status)
    }
}

/// The index of the first of `routes` that is named `command`, or -1.
pub open spec fn route_of(routes: Seq<Seq<u8>>, command: Seq<u8>) -> int
    decreases routes.len(),
{
    if routes.len() == 0 {
        -1
    } else if routes.first() == command {
        0
    } else if route_of(routes.drop_first(), command) < 0 {
        -1
    } else {
        route_of(routes.drop_first(), command) + 1
    }
}

/// Whether `a` and `b` hold the same bytes.
pub fn same_bytes(a: &[u8], b: &[u8]) -> (same: bool)
    ensures
        same == (a@ == b@),
{
    if a.len() != b.len() {
        return false;
    }
    let mut i: usize = 0;
    while i < a.len()
        invariant
            i <= a.len(),
            a.len() == b.len(),
            a@.take(i as int) == b@.take(i as int),
        decreases a.len() - i,
    {
        if a[i] != b[i] {
            assert(a@[i as int] != b@[i as int]);
            return false;
        }
        assert(a@.take(i + 1) =~= a@.take(i as int).push(a@[i as int]));
        assert(b@.take(i + 1) =~= b@.take(i as int).push(b@[i as int]));
        i += 1;
    }
    assert(a@ =~= a@.take(a.len() as int));
    assert(b@ =~= b@.take(b.len() as int));
    true
}

impl Command {
    /// The name of the command on the wire.
    pub fn token(&self) -> (token: Vec<u8>)
        ensures
            token@ == token_of(*self),
    {
        let mut token: Vec<u8> = Vec::new();
        match self {
            Command::Save => {
                token.push(83);
                token.push(65);
                token.push(86);
                token.push(69);
            },
            Command::Purge => {
                token.push(80);
                token.push(85);
                token.push(82);
                token.push(71);
                token.push(69);
            },
            Command::Summary => {
                token.push(83);
                token.push(85);
                token.push(77);
                token.push(77);
                token.push(65);
                token.push(82);
                token.push(89);
            },
        }
        assert(token@ =~= token_of(*self));
        token
    }

    /// The command that `token` names, if it names one.
    pub fn parse(token: &[u8]) -> (command: Option<Command>)
        ensures
            command matches Some(named) ==> token@ == token_of(named),
            command is None ==> forall|any: Command| token@ != #[trigger] token_of(any),
    {
        let save = Command::Save.token();
        let purge = Command::Purge.token();
        let summary = Command::Summary.token();
        if same_bytes(token, save.as_slice()) {
            Some(Command::Save)
        } else if same_bytes(token, purge.as_slice()) {
            Some(Command::Purge)
        } else if same_bytes(token, summary.as_slice()) {
            Some(Command::Summary)
        } else {
            None
        }
    }
}

impl Response {
    /// The response of a command that was carried out and returned `payload`.
    pub fn success(payload: Vec<u8>) -> (response: Response)
        ensures
            response.status == STATUS_OK,
            response.payload@ == payload@,
    {
        Response { status: STATUS_OK, payload }
    }

    /// The response to a command that no route answers to: no payload.
    pub fn unknown_command() -> (response: Response)
        ensures
            response.status == STATUS_UNKNOWN_COMMAND,
            response.payload@ == Seq::<u8>::empty(),
    {
        Response { status: STATUS_UNKNOWN_COMMAND, payload: Vec::new() }
    }

    /// The response of a command whose handler failed: no payload.
    pub fn handler_failed() -> (response: Response)
        ensures
            response.status == STATUS_HANDLER_FAILED,
            response.payload@ == Seq::<u8>::empty(),
    {
        Response { status: STATUS_HANDLER_FAILED, payload: Vec::new() }
    }

    /// The response to a command whose handler ended with `outcome`: the
    /// payload of a handler that succeeded, or a failure without payload.
    pub fn respond(outcome: Option<Vec<u8>>) -> (response: Response)
        ensures
            outcome matches Some(payload) ==> response.status == STATUS_OK && response.payload@
                == payload@,
            outcome is None ==> response.status == STATUS_HANDLER_FAILED && response.payload@
                == Seq::<u8>::empty(),
    {
        match outcome {
            Some(payload) => Response::success(payload),
            None => Response::handler_failed(),
        }
    }

    /// What the caller gets: the payload of a success, or the error that the
    /// status stands for.
    pub fn into_result(self) -> (result: Result<Vec<u8>, SendError>)
        ensures
            result is Ok <==> is_success(self.status),
            result matches Ok(payload) ==> payload@ == self.payload@,
            result matches Err(error) ==> error == error_of(self.status),
    {
        if 200 <= self.status && self.status < 300 {
            Ok(self.payload)
        } else if self.status == STATUS_UNKNOWN_COMMAND {
            Err(SendError::UnknownCommand)
        } else {
            Err(SendError::Handler(self.status))
        }
    }
}

/// The named routes of a server, in the order of their registration. The
/// handler of a route is kept by whoever runs the server, under the route's
/// index.
pub struct Router {
    routes: Vec<Vec<u8>>,
}

impl Router {
    /// The names of the routes, in the order of their registration.
    pub closed spec fn names(&self) -> Seq<Seq<u8>> {
        Seq::new(self.routes@.len(), |i: int| self.routes@[i]@)
    }

    /// A server without routes.
    pub fn new() -> (router: Router)
        ensures
            router.names() == Seq::<Seq<u8>>::empty(),
    {
        let router = Router { routes: Vec::new() };
        assert(router.names() =~= Seq::<Seq<u8>>::empty());
        router
    }

    /// Registers a route for `command` behind those that are there.
    pub fn route(self, command: &[u8]) -> (router: Router)
        ensures
            router.names() == self.names().push(command@),
    {
        let mut routes = self.routes;
        let mut name: Vec<u8> = Vec::new();
        name.extend_from_slice(command);
        assert(name@ =~= command@);
        routes.push(name);
        let router = Router { routes };
        assert forall|i: int| 0 <= i < router.names().len() implies router.names()[i]
            == self.names().push(command@)[i] by {
            if i < self.routes@.len() {
                assert(router.routes@[i] == self.routes@[i]);
            }
        }
        assert(router.names() =~= self.names().push(command@));
        router
    }

    /// The number of routes.
    pub fn len(&self) -> (len: usize)
        ensures
            len == self.names().len(),
    {
        self.routes.len()
    }

    /// Where `request` goes: to the handler of the route that answers to its
    /// command, or straight back as an unknown command.
    pub fn dispatch(&self, request: &Request) -> (target: Result<usize, Response>)
        ensures
            target is Err <==> route_of(self.names(), request.command@) < 0,
            target matches Ok(index) ==> index == route_of(self.names(), request.command@),
            target matches Err(response) ==> response.status == STATUS_UNKNOWN_COMMAND
                && response.payload@ == Seq::<u8>::empty(),
    {
        match self.resolve(request.command.as_slice()) {
            Some(index) => Ok(index),
            None => Err(Response::unknown_command()),
        }
    }

    /// The route that answers to `command`: the first that bears its name.
    /// `None` means that the command is unknown.
    pub fn resolve(&self, command: &[u8]) -> (route: Option<usize>)
        ensures
            route is None <==> route_of(self.names(), command@) < 0,
            route matches Some(index) ==> index == route_of(self.names(), command@),
    {
        let mut i: usize = 0;
        while i < self.routes.len()
            invariant
                i <= self.routes.len(),
                forall|j: int| 0 <= j < i ==> #[trigger] self.names()[j] != command@,
            decreases self.routes.len() - i,
        {
            if same_bytes(self.routes[i].as_slice(), command) {
                proof {
                    lemma_route_of_is(self.names(), command@, i as int);
                }
                return Some(i);
            }
            i += 1;
        }
        proof {
            lemma_route_of_is(self.names(), command@, -1);
        }
        None
    }
}

proof fn lemma_route_of_bounds(routes: Seq<Seq<u8>>, command: Seq<u8>)
    ensures
        -1 <= route_of(routes, command) < routes.len(),
        route_of(routes, command) >= 0 ==> routes[route_of(routes, command)] == command,
        forall|j: int|
            0 <= j < routes.len() && (j < route_of(routes, command) || route_of(routes, command)
                < 0) ==> #[trigger] routes[j] != command,
    decreases routes.len(),
{
    if routes.len() > 0 && routes.first() != command {
        let rest = routes.drop_first();
        lemma_route_of_bounds(rest, command);
        assert forall|j: int|
            0 <= j < routes.len() && (j < route_of(routes, command) || route_of(routes, command)
                < 0) implies #[trigger] routes[j] != command by {
            if j > 0 {
                assert(rest[j - 1] == routes[j]);
            }
        }
    }
}

proof fn lemma_route_of_is(routes: Seq<Seq<u8>>, command: Seq<u8>, index: int)
    requires
        -1 <= index < routes.len(),
        index >= 0 ==> routes[index] == command,
        forall|j: int|
            0 <= j < routes.len() && (j < index || index < 0) ==> #[trigger] routes[j] != command,
    ensures
        route_of(routes, command) == index,
{
    lemma_route_of_bounds(routes, command);
}

/// An unknown command is one that no route is named after, and a known one
/// is answered by the first route of its name.
pub proof fn lemma_route_of_finds_first(routes: Seq<Seq<u8>>, command: Seq<u8>)
    ensures
        route_of(routes, command) < 0 <==> !routes.contains(command),
        route_of(routes, command) >= 0 ==> {
            &&& route_of(routes, command) < routes.len()
            &&& routes[route_of(routes, command)] == command
            &&& forall|j: int|
                0 <= j < route_of(routes, command) ==> #[trigger] routes[j] != command
        },
{
    lemma_route_of_bounds(routes, command);
}

/// Each command has a name of its own, so a name read off the wire stands
/// for at most one command.
pub proof fn lemma_tokens_differ(a: Command, b: Command)
    ensures
        token_of(a) == token_of(b) <==> a == b,
{
    if a != b {
        assert(token_of(a).len() != token_of(b).len() || token_of(a)[1] != token_of(b)[1]);
    }
}

} // verus!
