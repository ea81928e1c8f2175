//! The server: its configuration, the registry of sessions, the commands it
//! executes itself and the control messages it serves.
use vstd::prelude::*;
use crate::kind::CommandKind;
use crate::commands::{Commands, CommandView};
use crate::params::Params;
use crate::session::{
    Client, commands_view, SessionView, SessionOutcome, ServerMessages, MessageView, session_step,
    same_but_pending, uuid_key, name_key, host_key, key_uuid, key_name, key_host, error_view,
    command_opt_view,
};
use crate::text::string_from_chars;

verus! {

/// The parameter name of the server's author in an `Info` reply.
pub open spec fn owner_key() -> Seq<char> {
    seq!['o', 'w', 'n', 'e', 'r']
}

/// The abstract state of a server.
pub struct ServerView {
    pub name: Seq<char>,
    pub address: Seq<char>,
    pub author: Seq<char>,
    pub clients: Seq<SessionView>,
}

/// No two sessions share an identifier.
pub open spec fn unique_uuids(s: Seq<SessionView>) -> bool {
    forall|i: int, j: int|
        0 <= i < s.len() && 0 <= j < s.len() && i != j ==> #[trigger] s[i].uuid != #[trigger] s[j].uuid
}

/// Whether a session with identifier `u` is registered.
pub open spec fn has_uuid(s: Seq<SessionView>, u: Seq<char>) -> bool {
    exists|i: int| 0 <= i < s.len() && #[trigger] s[i].uuid == u
}

/// Every session with `n` added at the back of its queue.
pub open spec fn fan_out(s: Seq<SessionView>, n: CommandView) -> Seq<SessionView> {
    s.map_values(|v: SessionView| SessionView { pending: v.pending.push(n), ..v })
}

/// A parameter mapping that names a session: `uuid`, `name` and `host`.
pub open spec fn names_session(m: Map<Seq<char>, Seq<char>>) -> bool {
    m.dom().contains(uuid_key()) && m.dom().contains(name_key()) && m.dom().contains(host_key())
}

/// The mapping `{uuid, name, host}`.
pub open spec fn identity_map(u: Seq<char>, n: Seq<char>, h: Seq<char>) -> Map<Seq<char>, Seq<char>> {
    Map::empty().insert(uuid_key(), u).insert(name_key(), n).insert(host_key(), h)
}

/// The `Client` notification that announces a session.
pub open spec fn client_note(u: Seq<char>, n: Seq<char>, h: Seq<char>) -> CommandView {
    (CommandKind::Client, Some(identity_map(u, n, h)))
}

/// The `ClientRemove` notification that announces a departure.
pub open spec fn remove_note(u: Seq<char>) -> CommandView {
    (CommandKind::ClientRemove, Some(Map::empty().insert(uuid_key(), u)))
}

/// A fresh session for the identity in `m`, last heard from at `now`.
pub open spec fn new_session(m: Map<Seq<char>, Seq<char>>, now: u64) -> SessionView {
    SessionView {
        uuid: m[uuid_key()],
        name: m[name_key()],
        host: m[host_key()],
        last_heartbeat: now,
        pending: Seq::empty(),
        connected: true,
    }
}

/// Whether a command is a `Connect` that may register: it names a session
/// whose identifier is not taken.
pub open spec fn connect_accepted(s: ServerView, c: CommandView) -> bool {
    c.0 == CommandKind::Connect && c.1 is Some && names_session(c.1->0) && !has_uuid(
        s.clients,
        c.1->0[uuid_key()],
    )
}

/// The dispatch table of the server itself: the server after the command,
/// the reply on the sender's stream, and the identifier registered, if any.
pub open spec fn server_step(s: ServerView, c: CommandView, now: u64) -> (
    ServerView,
    Option<CommandView>,
    Option<Seq<char>>,
) {
    if c.0 == CommandKind::Info {
        (
            s,
            Some((CommandKind::Success, Some(Map::empty().insert(name_key(), s.name).insert(owner_key(), s.author)))),
            None,
        )
    } else if connect_accepted(s, c) {
        let m = c.1->0;
        (
            ServerView {
                clients: fan_out(s.clients, client_note(m[uuid_key()], m[name_key()], m[host_key()])).push(
                    new_session(m, now),
                ),
                ..s
            },
            None,
            Some(m[uuid_key()]),
        )
    } else {
        (s, Some(error_view()), None)
    }
}

/// What the server decided for one command on its own context.
pub struct ServerOutcome {
    pub reply: Option<Commands>,
    pub registered: Option<String>,
}

/// The abstract value of an optional string.
pub open spec fn string_opt_view(o: Option<String>) -> Option<Seq<char>> {
    match o {
        Some(s) => Some(s@),
        None => None,
    }
}

/// The sessions of `s` but the one with identifier `u`.
pub open spec fn without(s: Seq<SessionView>, u: Seq<char>) -> Seq<SessionView>
    decreases s.len(),
{
    if s.len() == 0 {
        s
    } else if s.last().uuid == u {
        without(s.drop_last(), u)
    } else {
        without(s.drop_last(), u).push(s.last())
    }
}

/// The `Client` notifications that replay the registry to the session `r`:
/// one for every other session, in registry order.
pub open spec fn replay_notes(s: Seq<SessionView>, r: Seq<char>) -> Seq<CommandView>
    decreases s.len(),
{
    if s.len() == 0 {
        Seq::empty()
    } else if s.last().uuid == r {
        replay_notes(s.drop_last(), r)
    } else {
        replay_notes(s.drop_last(), r).push(client_note(s.last().uuid, s.last().name, s.last().host))
    }
}

/// The position of the session with identifier `u`, when there is one.
pub open spec fn uuid_index(s: Seq<SessionView>, u: Seq<char>) -> int {
    choose|i: int| 0 <= i < s.len() && #[trigger] s[i].uuid == u
}

/// The answer to a request for the details of session `u`.
pub open spec fn info_reply(s: Seq<SessionView>, u: Seq<char>) -> CommandView {
    if has_uuid(s, u) {
        let v = s[uuid_index(s, u)];
        (CommandKind::Success, Some(identity_map(v.uuid, v.name, v.host)))
    } else {
        (CommandKind::Success, None)
    }
}

/// What serving one control message does: the server after it, whether the
/// loop goes on, and the session to answer with which frame, if any.
pub open spec fn control_step(s: ServerView, m: MessageView) -> (ServerView, bool, Option<Seq<char>>, Option<CommandView>) {
    match m {
        MessageView::Shutdown => (ServerView { clients: Seq::empty(), ..s }, false, None, None),
        MessageView::Disconnect(u) => (
            ServerView { clients: fan_out(without(s.clients, u), remove_note(u)), ..s },
            true,
            None,
            None,
        ),
        MessageView::RequestInfo(u, r) => (s, true, Some(r), Some(info_reply(s.clients, u))),
        MessageView::RequestUpdate(r) => if has_uuid(s.clients, r) {
            let i = uuid_index(s.clients, r);
            let v = s.clients[i];
            (
                ServerView {
                    clients: s.clients.update(i, SessionView { pending: v.pending + replay_notes(s.clients, r), ..v }),
                    ..s
                },
                true,
                None,
                None,
            )
        } else {
            (s, true, None, None)
        },
    }
}

/// What the server decided for one control message.
pub struct ControlOutcome {
    pub running: bool,
    pub target: Option<String>,
    pub reply: Option<Commands>,
}

/// Without a session that was not there, the list is unchanged.
pub proof fn lemma_without_absent(s: Seq<SessionView>, u: Seq<char>)
    requires
        !has_uuid(s, u),
    ensures
        without(s, u) == s,
    decreases s.len(),
{
    if s.len() > 0 {
        let d = s.drop_last();
        assert(!has_uuid(d, u)) by {
            if has_uuid(d, u) {
                let j = choose|j: int| 0 <= j < d.len() && #[trigger] d[j].uuid == u;
                assert(s[j] == d[j]);
            }
        }
        lemma_without_absent(d, u);
        assert(s.last() == s[s.len() - 1]);
        assert(d.push(s.last()) =~= s);
    }
}

/// With unique identifiers, dropping session `u` removes its one entry.
pub proof fn lemma_without_remove(s: Seq<SessionView>, i: int)
    requires
        unique_uuids(s),
        0 <= i < s.len(),
    ensures
        without(s, s[i].uuid) == s.remove(i),
    decreases s.len(),
{
    let u = s[i].uuid;
    let d = s.drop_last();
    assert(s.last() == s[s.len() - 1]);
    if i == s.len() - 1 {
        assert(!has_uuid(d, u)) by {
            if has_uuid(d, u) {
                let j = choose|j: int| 0 <= j < d.len() && #[trigger] d[j].uuid == u;
                assert(s[j] == d[j]);
            }
        }
        lemma_without_absent(d, u);
        assert(s.remove(i) =~= d);
    } else {
        assert(unique_uuids(d)) by {
            assert forall|a: int, b: int|
                0 <= a < d.len() && 0 <= b < d.len() && a != b implies #[trigger] d[a].uuid != #[trigger] d[b].uuid by {
                assert(d[a] == s[a] && d[b] == s[b]);
            }
        }
        assert(d[i] == s[i]);
        lemma_without_remove(d, i);
        assert(d.remove(i).push(s.last()) =~= s.remove(i));
    }
}

/// Adding a notification to every queue keeps every identity.
pub proof fn lemma_fan_out_keeps_uuids(s: Seq<SessionView>, n: CommandView)
    ensures
        fan_out(s, n).len() == s.len(),
        forall|j: int| 0 <= j < s.len() ==> (#[trigger] fan_out(s, n)[j]).uuid == s[j].uuid,
        unique_uuids(fan_out(s, n)) == unique_uuids(s),
        forall|u: Seq<char>| has_uuid(fan_out(s, n), u) == #[trigger] has_uuid(s, u),
{
    let f = fan_out(s, n);
    assert forall|j: int| 0 <= j < s.len() implies (#[trigger] f[j]).uuid == s[j].uuid by {}
    if unique_uuids(s) {
        assert forall|a: int, b: int| 0 <= a < f.len() && 0 <= b < f.len() && a != b implies #[trigger] f[a].uuid != #[trigger] f[b].uuid by {
            assert(f[a].uuid == s[a].uuid && f[b].uuid == s[b].uuid);
        }
    }
    if unique_uuids(f) {
        assert forall|a: int, b: int| 0 <= a < s.len() && 0 <= b < s.len() && a != b implies #[trigger] s[a].uuid != #[trigger] s[b].uuid by {
            assert(f[a].uuid == s[a].uuid && f[b].uuid == s[b].uuid);
        }
    }
    assert forall|u: Seq<char>| has_uuid(f, u) == #[trigger] has_uuid(s, u) by {
        if has_uuid(f, u) {
            let j = choose|j: int| 0 <= j < f.len() && #[trigger] f[j].uuid == u;
            assert(s[j].uuid == u);
        }
        if has_uuid(s, u) {
            let j = choose|j: int| 0 <= j < s.len() && #[trigger] s[j].uuid == u;
            assert(f[j].uuid == u);
        }
    }
}

/// With unique identifiers, the session found for `u` is the one at `i`.
pub proof fn lemma_uuid_index(s: Seq<SessionView>, i: int)
    requires
        unique_uuids(s),
        0 <= i < s.len(),
    ensures
        has_uuid(s, s[i].uuid),
        uuid_index(s, s[i].uuid) == i,
{
    assert(s[i].uuid == s[i].uuid);
    let j = uuid_index(s, s[i].uuid);
    assert(0 <= j < s.len() && s[j].uuid == s[i].uuid);
}

/// The server's configuration and registry of sessions.
pub struct Server {
    name: String,
    address: String,
    author: String,
    connected_clients: Vec<Client>,
}

/// The abstract values of a list of sessions.
pub open spec fn sessions_view(v: Seq<Client>) -> Seq<SessionView> {
    v.map_values(|c: Client| c@)
}

impl View for Server {
    type V = ServerView;

    closed spec fn view(&self) -> ServerView {
        ServerView {
            name: self.name@,
            address: self.address@,
            author: self.author@,
            clients: sessions_view(self.connected_clients@),
        }
    }
}

impl Server {
    /// Registry invariant: identifiers are unique.
    pub open spec fn wf(&self) -> bool {
        unique_uuids(self@.clients)
    }

    /// A server with the given configuration and no sessions.
    pub fn new(name: &str, address: &str, author: &str) -> (r: Server)
        ensures
            r.wf(),
            r@.name == name@,
            r@.address == address@,
            r@.author == author@,
            r@.clients == Seq::<SessionView>::empty(),
    {
        let r = Server {
            name: String::from_str(name),
            address: String::from_str(address),
            author: String::from_str(author),
            connected_clients: Vec::new(),
        };
        assert(sessions_view(r.connected_clients@) =~= Seq::<SessionView>::empty());
        r
    }

    pub fn get_name(&self) -> (r: String)
        ensures
            r@ == self@.name,
    {
        self.name.clone()
    }

    pub fn get_address(&self) -> (r: String)
        ensures
            r@ == self@.address,
    {
        self.address.clone()
    }

    pub fn get_author(&self) -> (r: String)
        ensures
            r@ == self@.author,
    {
        self.author.clone()
    }

    /// The registered sessions, in registry order.
    pub fn get_connected_clients(&self) -> (r: &Vec<Client>)
        ensures
            sessions_view(r@) == self@.clients,
    {
        &self.connected_clients
    }

    /// The number of registered sessions.
    pub fn client_count(&self) -> (r: usize)
        ensures
            r == self@.clients.len(),
    {
        self.connected_clients.len()
    }

    /// The position of the session with identifier `uuid`, if registered.
    pub fn find_client(&self, uuid: &String) -> (r: Option<usize>)
        ensures
            r is Some ==> r->0 < self@.clients.len() && self@.clients[r->0 as int].uuid == uuid@,
            r is None ==> !has_uuid(self@.clients, uuid@),
    {
        let mut i: usize = 0;
        while i < self.connected_clients.len()
            invariant
                i <= self.connected_clients@.len(),
                forall|j: int| 0 <= j < i ==> #[trigger] self@.clients[j].uuid != uuid@,
            decreases self.connected_clients@.len() - i,
        {
            let u = self.connected_clients[i].get_uuid();
            if u == *uuid {
                return Some(i);
            }
            i = i + 1;
        }
        None
    }

    /// Whether a session with identifier `uuid` is registered.
    pub fn contains_client(&self, uuid: &String) -> (r: bool)
        ensures
            r == has_uuid(self@.clients, uuid@),
    {
        self.find_client(uuid).is_some()
    }

    /// Adds `command` at the back of every session's queue.
    pub fn update_all_clients(&mut self, command: &Commands)
        ensures
            final(self)@ == (ServerView { clients: fan_out(old(self)@.clients, command@), ..old(self)@ }),
            final(self).wf() == old(self).wf(),
    {
        let ghost start = self@.clients;
        let mut i: usize = 0;
        while i < self.connected_clients.len()
            invariant
                i <= self.connected_clients@.len(),
                self@.name == old(self)@.name,
                self@.address == old(self)@.address,
                self@.author == old(self)@.author,
                start == old(self)@.clients,
                self@.clients.len() == start.len(),
                forall|j: int| 0 <= j < i ==> #[trigger] self@.clients[j] == fan_out(start, command@)[j],
                forall|j: int| i <= j < self@.clients.len() ==> #[trigger] self@.clients[j] == start[j],
            decreases self.connected_clients@.len() - i,
        {
            let ghost before = self.connected_clients@;
            assert(self@.clients[i as int] == start[i as int]);
            assert(self@.clients == sessions_view(before));
            assert(sessions_view(before)[i as int] == before[i as int]@);
            let c = command.clone();
            self.connected_clients[i].push_notification(c);
            proof {
                let v = start[i as int];
                assert(before[i as int]@ == v);
                assert(self.connected_clients@[i as int]@.pending == v.pending.push(command@));
                assert(self.connected_clients@[i as int]@ == (SessionView { pending: v.pending.push(command@), ..v }));
                assert forall|j: int| 0 <= j < self@.clients.len() && j != i implies #[trigger] self@.clients[j] == sessions_view(before)[j] by {
                    assert(self.connected_clients@[j] == before[j]);
                    assert(self@.clients[j] == self.connected_clients@[j]@);
                }
                assert(self@.clients[i as int] == self.connected_clients@[i as int]@);
                assert(self@.clients.len() == start.len());
            }
            i = i + 1;
        }
        assert(self@.clients =~= fan_out(start, command@));
        proof {
            lemma_fan_out_keeps_uuids(start, command@);
        }
        assert(self@ == (ServerView { clients: fan_out(old(self)@.clients, command@), ..old(self)@ }));
    }

    /// Removes the session with identifier `uuid`, if registered.
    pub fn remove_client(&mut self, uuid: &String)
        requires
            old(self).wf(),
        ensures
            final(self).wf(),
            final(self)@ == (ServerView { clients: without(old(self)@.clients, uuid@), ..old(self)@ }),
    {
        match self.find_client(uuid) {
            Some(i) => {
                proof {
                    lemma_without_remove(self@.clients, i as int);
                }
                let ghost before = self.connected_clients@;
                let _ = self.connected_clients.remove(i);
                assert(sessions_view(self.connected_clients@) =~= sessions_view(before).remove(i as int));
            },
            None => {
                proof {
                    lemma_without_absent(self@.clients, uuid@);
                }
            },
        }
    }

    /// Executes a command that arrived on a stream that the server itself
    /// serves: `Info`, and `Connect` that registers a session and announces
    /// it to every session already there. Anything else is answered `Error`.
    pub fn execute(&mut self, cmd: &Commands, now: u64) -> (r: ServerOutcome)
        requires
            old(self).wf(),
        ensures
            final(self).wf(),
            (final(self)@, command_opt_view(r.reply), string_opt_view(r.registered)) == server_step(
                old(self)@,
                cmd@,
                now,
            ),
    {
        match cmd {
            Commands::Info => {
                let mut p = Params::new();
                p.insert(key_name(), self.name.clone());
                p.insert(string_from_chars(&['o', 'w', 'n', 'e', 'r']), self.author.clone());
                assert(p@ =~= Map::empty().insert(name_key(), self@.name).insert(owner_key(), self@.author));
                ServerOutcome { reply: Some(Commands::Success(Some(p))), registered: None }
            },
            Commands::Connect(Some(p)) => {
                let u = p.get(&key_uuid());
                let n = p.get(&key_name());
                let h = p.get(&key_host());
                match (u, n, h) {
                    (Some(u), Some(n), Some(h)) => {
                        if self.contains_client(&u) {
                            return ServerOutcome { reply: Some(Commands::Error), registered: None };
                        }
                        let note = Commands::Client(Some(identity_params(u.clone(), n.clone(), h.clone())));
                        let ghost before = self@;
                        self.update_all_clients(&note);
                        proof {
                            lemma_fan_out_keeps_uuids(before.clients, note@);
                        }
                        let ghost mid = self.connected_clients@;
                        let c = Client::new(u.as_str(), n.as_str(), h.as_str(), now);
                        self.connected_clients.push(c);
                        proof {
                            assert(sessions_view(self.connected_clients@) =~= sessions_view(mid).push(c@));
                            assert(c@ == new_session(cmd@.1->0, now));
                            let cl = self@.clients;
                            assert forall|a: int, b: int|
                                0 <= a < cl.len() && 0 <= b < cl.len() && a != b implies #[trigger] cl[a].uuid != #[trigger] cl[b].uuid by {
                                if a == cl.len() - 1 {
                                    assert(cl[b] == sessions_view(mid)[b]);
                                } else if b == cl.len() - 1 {
                                    assert(cl[a] == sessions_view(mid)[a]);
                                } else {
                                    assert(cl[a] == sessions_view(mid)[a] && cl[b] == sessions_view(mid)[b]);
                                }
                            }
                        }
                        ServerOutcome { reply: None, registered: Some(u) }
                    },
                    _ => ServerOutcome { reply: Some(Commands::Error), registered: None },
                }
            },
            _ => ServerOutcome { reply: Some(Commands::Error), registered: None },
        }
    }

    /// The `Client` notifications that replay the registry to session `r`.
    fn replay_for(&self, r: &String) -> (notes: Vec<Commands>)
        ensures
            commands_view(notes@) == replay_notes(self@.clients, r@),
    {
        let mut notes: Vec<Commands> = Vec::new();
        let mut j: usize = 0;
        while j < self.connected_clients.len()
            invariant
                j <= self.connected_clients@.len(),
                commands_view(notes@) == replay_notes(self@.clients.take(j as int), r@),
            decreases self.connected_clients@.len() - j,
        {
            let v = &self.connected_clients[j];
            let ghost prev = notes@;
            let u = v.get_uuid();
            proof {
                let t = self@.clients.take(j + 1);
                assert(t.drop_last() =~= self@.clients.take(j as int));
                assert(t.last() == self@.clients[j as int]);
            }
            if !(u == *r) {
                let note = Commands::Client(Some(identity_params(u, v.get_username(), v.get_address())));
                notes.push(note);
                assert(commands_view(notes@) =~= commands_view(prev).push(note@));
            }
            j = j + 1;
        }
        assert(self@.clients.take(j as int) =~= self@.clients);
        notes
    }

    /// Adds `notes` at the back of the queue of the session at `i`.
    fn push_all(&mut self, i: usize, notes: &Vec<Commands>)
        requires
            i < old(self)@.clients.len(),
        ensures
            final(self)@ == (ServerView {
                clients: old(self)@.clients.update(
                    i as int,
                    SessionView { pending: old(self)@.clients[i as int].pending + commands_view(notes@), ..old(self)@.clients[i as int] },
                ),
                ..old(self)@
            }),
    {
        let ghost start = self@;
        let mut k: usize = 0;
        proof {
            let v = start.clients[i as int];
            assert(commands_view(notes@.take(0)) =~= Seq::<CommandView>::empty());
            assert(v.pending + commands_view(notes@.take(0)) =~= v.pending);
            assert(start.clients.update(i as int, SessionView { pending: v.pending + commands_view(notes@.take(0)), ..v }) =~= start.clients);
        }
        while k < notes.len()
            invariant
                k <= notes@.len(),
                i < self.connected_clients@.len(),
                i < start.clients.len(),
                start == old(self)@,
                self@ == (ServerView {
                    clients: start.clients.update(
                        i as int,
                        SessionView { pending: start.clients[i as int].pending + commands_view(notes@.take(k as int)), ..start.clients[i as int] },
                    ),
                    ..start
                }),
            decreases notes@.len() - k,
        {
            let ghost before = self.connected_clients@;
            assert(before[i as int]@ == self@.clients[i as int]);
            let c = notes[k].clone();
            self.connected_clients[i].push_notification(c);
            proof {
                assert(commands_view(notes@.take(k + 1)) =~= commands_view(notes@.take(k as int)).push(notes@[k as int]@));
                assert(self.connected_clients@ =~= before.update(i as int, self.connected_clients@[i as int]));
                assert(sessions_view(self.connected_clients@) =~= sessions_view(before).update(i as int, self.connected_clients@[i as int]@));
                let v = start.clients[i as int];
                assert(self.connected_clients@[i as int]@ == (SessionView { pending: v.pending + commands_view(notes@.take(k + 1)), ..v }));
                assert(self@.clients =~= start.clients.update(
                    i as int,
                    SessionView { pending: v.pending + commands_view(notes@.take(k + 1)), ..v },
                ));
            }
            k = k + 1;
        }
        assert(notes@.take(k as int) =~= notes@);
    }

    /// Serves one control message.
    pub fn handle_message(&mut self, msg: &ServerMessages) -> (r: ControlOutcome)
        requires
            old(self).wf(),
        ensures
            final(self).wf(),
            (final(self)@, r.running, string_opt_view(r.target), command_opt_view(r.reply)) == control_step(
                old(self)@,
                msg@,
            ),
    {
        match msg {
            ServerMessages::Shutdown => {
                self.connected_clients = Vec::new();
                assert(sessions_view(self.connected_clients@) =~= Seq::<SessionView>::empty());
                ControlOutcome { running: false, target: None, reply: None }
            },
            ServerMessages::Disconnect(u) => {
                self.remove_client(u);
                let mut p = Params::new();
                p.insert(key_uuid(), u.clone());
                assert(p@ =~= Map::empty().insert(uuid_key(), u@));
                self.update_all_clients(&Commands::ClientRemove(Some(p)));
                ControlOutcome { running: true, target: None, reply: None }
            },
            ServerMessages::RequestInfo(u, requester) => {
                let reply = match self.find_client(u) {
                    Some(i) => {
                        proof {
                            lemma_uuid_index(self@.clients, i as int);
                        }
                        let v = &self.connected_clients[i];
                        Commands::Success(Some(identity_params(v.get_uuid(), v.get_username(), v.get_address())))
                    },
                    None => Commands::Success(None),
                };
                ControlOutcome { running: true, target: Some(requester.clone()), reply: Some(reply) }
            },
            ServerMessages::RequestUpdate(requester) => {
                match self.find_client(requester) {
                    Some(i) => {
                        proof {
                            lemma_uuid_index(self@.clients, i as int);
                        }
                        let notes = self.replay_for(requester);
                        let ghost before = self@.clients;
                        self.push_all(i, &notes);
                        proof {
                            let cl = self@.clients;
                            assert forall|a: int, b: int|
                                0 <= a < cl.len() && 0 <= b < cl.len() && a != b implies #[trigger] cl[a].uuid != #[trigger] cl[b].uuid by {
                                assert(cl[a].uuid == before[a].uuid && cl[b].uuid == before[b].uuid);
                            }
                        }
                    },
                    None => {},
                }
                ControlOutcome { running: true, target: None, reply: None }
            },
        }
    }

    /// The identifier of the session at `i`.
    pub fn client_uuid(&self, i: usize) -> (r: String)
        requires
            i < self@.clients.len(),
        ensures
            r@ == self@.clients[i as int].uuid,
    {
        self.connected_clients[i].get_uuid()
    }

    /// Executes a command that arrived on the stream of the session at `i`.
    pub fn execute_for(&mut self, i: usize, cmd: &Commands, now: u64) -> (r: SessionOutcome)
        requires
            old(self).wf(),
            i < old(self)@.clients.len(),
        ensures
            final(self).wf(),
            final(self)@ == (ServerView {
                clients: old(self)@.clients.update(i as int, session_step(old(self)@.clients[i as int], cmd@, now).0),
                ..old(self)@
            }),
            r.spec_view() == session_step(old(self)@.clients[i as int], cmd@, now).1,
    {
        let ghost before = self.connected_clients@;
        let r = self.connected_clients[i].execute(cmd, now);
        proof {
            assert(self.connected_clients@ =~= before.update(i as int, self.connected_clients@[i as int]));
            assert(sessions_view(self.connected_clients@) =~= sessions_view(before).update(i as int, self.connected_clients@[i as int]@));
            let cl = self@.clients;
            assert forall|a: int, b: int|
                0 <= a < cl.len() && 0 <= b < cl.len() && a != b implies #[trigger] cl[a].uuid != #[trigger] cl[b].uuid by {
                assert(cl[a].uuid == sessions_view(before)[a].uuid && cl[b].uuid == sessions_view(before)[b].uuid);
            }
        }
        r
    }

    /// Takes the notification at the front of the queue of the session at `i`.
    pub fn next_notification_for(&mut self, i: usize) -> (r: Option<Commands>)
        requires
            old(self).wf(),
            i < old(self)@.clients.len(),
        ensures
            final(self).wf(),
            old(self)@.clients[i as int].pending.len() == 0 ==> r is None && final(self)@ == old(self)@,
            old(self)@.clients[i as int].pending.len() > 0 ==> r is Some
                && r->0@ == old(self)@.clients[i as int].pending[0]
                && final(self)@ == (ServerView {
                    clients: old(self)@.clients.update(
                        i as int,
                        SessionView { pending: old(self)@.clients[i as int].pending.drop_first(), ..old(self)@.clients[i as int] },
                    ),
                    ..old(self)@
                }),
    {
        let ghost before = self.connected_clients@;
        let r = self.connected_clients[i].next_notification();
        proof {
            assert(self.connected_clients@ =~= before.update(i as int, self.connected_clients@[i as int]));
            assert(sessions_view(self.connected_clients@) =~= sessions_view(before).update(i as int, self.connected_clients@[i as int]@));
            let cl = self@.clients;
            assert forall|a: int, b: int|
                0 <= a < cl.len() && 0 <= b < cl.len() && a != b implies #[trigger] cl[a].uuid != #[trigger] cl[b].uuid by {
                assert(cl[a].uuid == sessions_view(before)[a].uuid && cl[b].uuid == sessions_view(before)[b].uuid);
            }
            if sessions_view(before)[i as int].pending.len() == 0 {
                assert(sessions_view(self.connected_clients@) =~= sessions_view(before));
            }
        }
        r
    }
}

/// The parameter set `{uuid, name, host}`.
pub fn identity_params(u: String, n: String, h: String) -> (r: Params)
    ensures
        r@ == identity_map(u@, n@, h@),
{
    let mut p = Params::new();
    p.insert(key_uuid(), u);
    p.insert(key_name(), n);
    p.insert(key_host(), h);
    assert(p@ =~= identity_map(u@, n@, h@));
    p
}

/// A `Connect` that names an unused identifier registers exactly one new
/// session under it, at the back of the registry, sends no reply, and queues
/// its `Client` announcement for every session that was already there.
pub proof fn lemma_connect_fan_out(s: ServerView, m: Map<Seq<char>, Seq<char>>, now: u64)
    requires
        names_session(m),
        !has_uuid(s.clients, m[uuid_key()]),
    ensures
        ({
            let (t, reply, reg) = server_step(s, (CommandKind::Connect, Some(m)), now);
            &&& reply is None
            &&& reg == Some(m[uuid_key()])
            &&& t.clients.len() == s.clients.len() + 1
            &&& t.clients.last() == new_session(m, now)
            &&& forall|i: int| 0 <= i < s.clients.len() ==> {
                &&& (#[trigger] t.clients[i]).pending == s.clients[i].pending.push(
                    client_note(m[uuid_key()], m[name_key()], m[host_key()]),
                )
                &&& same_but_pending(t.clients[i], s.clients[i])
            }
        }),
{
    let n = client_note(m[uuid_key()], m[name_key()], m[host_key()]);
    let t = server_step(s, (CommandKind::Connect, Some(m)), now).0;
    assert forall|i: int| 0 <= i < s.clients.len() implies (#[trigger] t.clients[i]).pending
        == s.clients[i].pending.push(n) && same_but_pending(t.clients[i], s.clients[i]) by {
        assert(t.clients[i] == fan_out(s.clients, n)[i]);
    }
}

/// A `Connect` that lacks `uuid`, `name` or `host`, or has no parameters at
/// all, is answered `Error` and leaves the server unchanged.
pub proof fn lemma_connect_requires_identity(s: ServerView, p: Option<Map<Seq<char>, Seq<char>>>, now: u64)
    requires
        p is None || !names_session(p->0),
    ensures
        server_step(s, (CommandKind::Connect, p), now) == (s, Some(error_view()), None::<Seq<char>>),
{
}

} // verus!
