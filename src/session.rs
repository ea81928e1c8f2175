//! One registered client session and the commands it executes.
use vstd::prelude::*;
use crate::kind::CommandKind;
use crate::commands::{Commands, CommandView};
use crate::text::string_from_chars;

verus! {

/// A request that a session or the accept loop posts to the server.
#[derive(Debug)]
pub enum ServerMessages {
    /// Replay the registry to the session with this `uuid`.
    RequestUpdate(String),
    /// Answer the session with the second `uuid` with the details of the first.
    RequestInfo(String, String),
    /// The session with this `uuid` has left.
    Disconnect(String),
    /// Stop the server loop.
    Shutdown,
}

/// The abstract value of a control message.
pub enum MessageView {
    RequestUpdate(Seq<char>),
    RequestInfo(Seq<char>, Seq<char>),
    Disconnect(Seq<char>),
    Shutdown,
}

impl View for ServerMessages {
    type V = MessageView;

    open spec fn view(&self) -> MessageView {
        match self {
            ServerMessages::RequestUpdate(u) => MessageView::RequestUpdate(u@),
            ServerMessages::RequestInfo(u, r) => MessageView::RequestInfo(u@, r@),
            ServerMessages::Disconnect(u) => MessageView::Disconnect(u@),
            ServerMessages::Shutdown => MessageView::Shutdown,
        }
    }
}

/// The abstract value of an optional command.
pub open spec fn command_opt_view(o: Option<Commands>) -> Option<CommandView> {
    match o {
        Some(c) => Some(c@),
        None => None,
    }
}

/// The abstract value of an optional control message.
pub open spec fn message_opt_view(o: Option<ServerMessages>) -> Option<MessageView> {
    match o {
        Some(m) => Some(m@),
        None => None,
    }
}

/// A `Success` reply without parameters.
pub open spec fn success_view() -> CommandView {
    (CommandKind::Success, None)
}

/// An `Error` reply.
pub open spec fn error_view() -> CommandView {
    (CommandKind::Error, None)
}

/// What a session decided for one command: the frame to send back on its
/// own stream, the message to post to the server, and whether to shut the
/// stream down.
pub struct SessionOutcome {
    pub reply: Option<Commands>,
    pub control: Option<ServerMessages>,
    pub close: bool,
}

/// The abstract state of a session.
pub struct SessionView {
    pub uuid: Seq<char>,
    pub name: Seq<char>,
    pub host: Seq<char>,
    pub last_heartbeat: u64,
    pub pending: Seq<CommandView>,
    pub connected: bool,
}

/// The parameter name of a session's identifier.
pub open spec fn uuid_key() -> Seq<char> {
    seq!['u', 'u', 'i', 'd']
}

/// The parameter name of a display name.
pub open spec fn name_key() -> Seq<char> {
    seq!['n', 'a', 'm', 'e']
}

/// The parameter name of a claimed address.
pub open spec fn host_key() -> Seq<char> {
    seq!['h', 'o', 's', 't']
}

/// A parameter name as a string.
pub fn key_uuid() -> (r: String)
    ensures
        r@ == uuid_key(),
{
    string_from_chars(&['u', 'u', 'i', 'd'])
}

/// A parameter name as a string.
pub fn key_name() -> (r: String)
    ensures
        r@ == name_key(),
{
    string_from_chars(&['n', 'a', 'm', 'e'])
}

/// A parameter name as a string.
pub fn key_host() -> (r: String)
    ensures
        r@ == host_key(),
{
    string_from_chars(&['h', 'o', 's', 't'])
}

/// What a session outcome holds, as abstract values.
pub type OutcomeView = (Option<CommandView>, Option<MessageView>, bool);

/// The dispatch table of a client session: the session after the command,
/// and the outcome. A pair that the table does not name is answered `Error`.
pub open spec fn session_step(s: SessionView, c: CommandView, now: u64) -> (SessionView, OutcomeView) {
    match c.0 {
        CommandKind::HeartBeat => (
            SessionView { last_heartbeat: now, ..s },
            (Some(success_view()), None, false),
        ),
        CommandKind::Disconnect => (
            SessionView { connected: false, ..s },
            (None, Some(MessageView::Disconnect(s.uuid)), true),
        ),
        CommandKind::ClientUpdate => (
            s,
            (Some(success_view()), Some(MessageView::RequestUpdate(s.uuid)), false),
        ),
        CommandKind::ClientInfo => match c.1 {
            Some(m) => if m.dom().contains(uuid_key()) {
                (s, (None, Some(MessageView::RequestInfo(m[uuid_key()], s.uuid)), false))
            } else {
                (s, (Some(error_view()), None, false))
            },
            None => (s, (Some(error_view()), None, false)),
        },
        _ => (s, (Some(error_view()), None, false)),
    }
}

impl SessionOutcome {
    pub open spec fn spec_view(&self) -> OutcomeView {
        (command_opt_view(self.reply), message_opt_view(self.control), self.close)
    }

    /// An outcome that only answers `Error`.
    pub fn error() -> (r: SessionOutcome)
        ensures
            r.spec_view() == (Some(error_view()), None::<MessageView>, false),
    {
        SessionOutcome { reply: Some(Commands::Error), control: None, close: false }
    }
}

/// A registered client: identity, liveness time, and the queue of
/// notifications waiting to be pushed to it.
pub struct Client {
    uuid: String,
    username: String,
    address: String,
    last_heartbeat: u64,
    pending: Vec<Commands>,
    connected: bool,
}

/// The abstract values of a list of commands.
pub open spec fn commands_view(v: Seq<Commands>) -> Seq<CommandView> {
    v.map_values(|c: Commands| c@)
}

impl View for Client {
    type V = SessionView;

    closed spec fn view(&self) -> SessionView {
        SessionView {
            uuid: self.uuid@,
            name: self.username@,
            host: self.address@,
            last_heartbeat: self.last_heartbeat,
            pending: commands_view(self.pending@),
            connected: self.connected,
        }
    }
}

/// `s` with the same identity, time and connection as `t`.
pub open spec fn same_but_pending(s: SessionView, t: SessionView) -> bool {
    s.uuid == t.uuid && s.name == t.name && s.host == t.host && s.last_heartbeat == t.last_heartbeat
        && s.connected == t.connected
}

impl Client {
    /// A connected session with an empty queue, last heard from at `now`.
    pub fn new(uuid: &str, username: &str, address: &str, now: u64) -> (r: Client)
        ensures
            r@.uuid == uuid@,
            r@.name == username@,
            r@.host == address@,
            r@.last_heartbeat == now,
            r@.pending == Seq::<CommandView>::empty(),
            r@.connected,
    {
        let r = Client {
            uuid: String::from_str(uuid),
            username: String::from_str(username),
            address: String::from_str(address),
            last_heartbeat: now,
            pending: Vec::new(),
            connected: true,
        };
        assert(commands_view(r.pending@) =~= Seq::<CommandView>::empty());
        r
    }

    pub fn get_uuid(&self) -> (r: String)
        ensures
            r@ == self@.uuid,
    {
        self.uuid.clone()
    }

    pub fn get_username(&self) -> (r: String)
        ensures
            r@ == self@.name,
    {
        self.username.clone()
    }

    pub fn get_address(&self) -> (r: String)
        ensures
            r@ == self@.host,
    {
        self.address.clone()
    }

    pub fn get_last_heartbeat(&self) -> (r: u64)
        ensures
            r == self@.last_heartbeat,
    {
        self.last_heartbeat
    }

    /// Whether the session's stream is still open.
    pub fn is_connected(&self) -> (r: bool)
        ensures
            r == self@.connected,
    {
        self.connected
    }

    /// The number of notifications waiting.
    pub fn pending_len(&self) -> (r: usize)
        ensures
            r == self@.pending.len(),
    {
        self.pending.len()
    }

    /// Puts a notification at the back of the queue.
    pub fn push_notification(&mut self, n: Commands)
        ensures
            final(self)@.pending == old(self)@.pending.push(n@),
            same_but_pending(final(self)@, old(self)@),
    {
        let ghost before = self.pending@;
        self.pending.push(n);
        assert(commands_view(self.pending@) =~= commands_view(before).push(n@));
    }

    /// Takes the notification at the front of the queue, if any.
    pub fn next_notification(&mut self) -> (r: Option<Commands>)
        ensures
            old(self)@.pending.len() == 0 ==> r is None && final(self)@ == old(self)@,
            old(self)@.pending.len() > 0 ==> r is Some && r->0@ == old(self)@.pending[0]
                && final(self)@.pending == old(self)@.pending.drop_first(),
            same_but_pending(final(self)@, old(self)@),
    {
        if self.pending.len() == 0 {
            None
        } else {
            let ghost before = self.pending@;
            let n = self.pending.remove(0);
            assert(commands_view(self.pending@) =~= commands_view(before).drop_first());
            Some(n)
        }
    }

    /// Executes a command that arrived on this session's stream, at time `now`.
    pub fn execute(&mut self, cmd: &Commands, now: u64) -> (r: SessionOutcome)
        ensures
            (final(self)@, r.spec_view()) == session_step(old(self)@, cmd@, now),
    {
        match cmd {
            Commands::HeartBeat(_) => {
                self.last_heartbeat = now;
                SessionOutcome { reply: Some(Commands::Success(None)), control: None, close: false }
            },
            Commands::Disconnect => {
                let msg = ServerMessages::Disconnect(self.uuid.clone());
                self.connected = false;
                SessionOutcome { reply: None, control: Some(msg), close: true }
            },
            Commands::ClientUpdate => {
                SessionOutcome {
                    reply: Some(Commands::Success(None)),
                    control: Some(ServerMessages::RequestUpdate(self.uuid.clone())),
                    close: false,
                }
            },
            Commands::ClientInfo(Some(p)) => {
                match p.get(&key_uuid()) {
                    Some(u) => SessionOutcome {
                        reply: None,
                        control: Some(ServerMessages::RequestInfo(u, self.uuid.clone())),
                        close: false,
                    },
                    None => SessionOutcome::error(),
                }
            },
            _ => SessionOutcome::error(),
        }
    }

    /// Marks the stream as shut down.
    pub fn disconnect(&mut self)
        ensures
            !final(self)@.connected,
            final(self)@.uuid == old(self)@.uuid,
            final(self)@.name == old(self)@.name,
            final(self)@.host == old(self)@.host,
            final(self)@.last_heartbeat == old(self)@.last_heartbeat,
            final(self)@.pending == old(self)@.pending,
    {
        self.connected = false;
    }
}

/// A heartbeat at a later time strictly advances the session's liveness
/// time, and is answered `Success` without parameters.
pub proof fn lemma_heartbeat_advances(s: SessionView, p: Option<Map<Seq<char>, Seq<char>>>, now: u64)
    requires
        now > s.last_heartbeat,
    ensures
        session_step(s, (CommandKind::HeartBeat, p), now).0.last_heartbeat > s.last_heartbeat,
        session_step(s, (CommandKind::HeartBeat, p), now).1.0 == Some(success_view()),
{
}

/// `Disconnect` is terminal: the stream is shut down, the session is no
/// longer connected, and the server is told its identifier.
pub proof fn lemma_disconnect_terminal(s: SessionView, p: Option<Map<Seq<char>, Seq<char>>>, now: u64)
    ensures
        !session_step(s, (CommandKind::Disconnect, p), now).0.connected,
        session_step(s, (CommandKind::Disconnect, p), now).1.2,
        session_step(s, (CommandKind::Disconnect, p), now).1.1 == Some(MessageView::Disconnect(s.uuid)),
{
}

} // verus!
