//! The closed set of protocol command kinds and their keywords.
use vstd::prelude::*;

verus! {

/// The kind of a protocol command, without its parameters.
#[derive(PartialEq, Eq, Structural, Clone, Copy, Debug)]
pub enum CommandKind {
    Request,
    Info,
    HeartBeat,
    Connect,
    Disconnect,
    ClientUpdate,
    ClientInfo,
    ClientRemove,
    Client,
    Success,
    Error,
}

/// The protocol keyword of a kind, as it stands between the sigil and the colon.
pub open spec fn keyword_spec(k: CommandKind) -> Seq<char> {
    match k {
        CommandKind::Request => seq!['r', 'e', 'q', 'u', 'e', 's', 't'],
        CommandKind::Info => seq!['i', 'n', 'f', 'o'],
        CommandKind::HeartBeat => seq!['h', 'e', 'a', 'r', 't', 'b', 'e', 'a', 't'],
        CommandKind::Connect => seq!['c', 'o', 'n', 'n', 'e', 'c', 't'],
        CommandKind::Disconnect => seq!['d', 'i', 's', 'c', 'o', 'n', 'n', 'e', 'c', 't'],
        CommandKind::ClientUpdate => seq!['c', 'l', 'i', 'e', 'n', 't', 'U', 'p', 'd', 'a', 't', 'e'],
        CommandKind::ClientInfo => seq!['c', 'l', 'i', 'e', 'n', 't', 'I', 'n', 'f', 'o'],
        CommandKind::ClientRemove => seq!['c', 'l', 'i', 'e', 'n', 't', 'R', 'e', 'm', 'o', 'v', 'e'],
        CommandKind::Client => seq!['c', 'l', 'i', 'e', 'n', 't'],
        CommandKind::Success => seq!['s', 'u', 'c', 'c', 'e', 's', 's'],
        CommandKind::Error => seq!['e', 'r', 'r', 'o', 'r'],
    }
}

/// Whether commands of this kind carry a parameter set.
pub open spec fn carries_params(k: CommandKind) -> bool {
    match k {
        CommandKind::HeartBeat | CommandKind::Connect | CommandKind::ClientInfo
        | CommandKind::ClientRemove | CommandKind::Client | CommandKind::Success => true,
        _ => false,
    }
}

/// The kind whose keyword is `kw`, if any.
pub open spec fn kind_of_keyword(kw: Seq<char>) -> Option<CommandKind> {
    if kw == keyword_spec(CommandKind::Request) {
        Some(CommandKind::Request)
    } else if kw == keyword_spec(CommandKind::Info) {
        Some(CommandKind::Info)
    } else if kw == keyword_spec(CommandKind::HeartBeat) {
        Some(CommandKind::HeartBeat)
    } else if kw == keyword_spec(CommandKind::Connect) {
        Some(CommandKind::Connect)
    } else if kw == keyword_spec(CommandKind::Disconnect) {
        Some(CommandKind::Disconnect)
    } else if kw == keyword_spec(CommandKind::ClientUpdate) {
        Some(CommandKind::ClientUpdate)
    } else if kw == keyword_spec(CommandKind::ClientInfo) {
        Some(CommandKind::ClientInfo)
    } else if kw == keyword_spec(CommandKind::ClientRemove) {
        Some(CommandKind::ClientRemove)
    } else if kw == keyword_spec(CommandKind::Client) {
        Some(CommandKind::Client)
    } else if kw == keyword_spec(CommandKind::Success) {
        Some(CommandKind::Success)
    } else if kw == keyword_spec(CommandKind::Error) {
        Some(CommandKind::Error)
    } else {
        None
    }
}

/// Each kind is found again from its own keyword.
pub proof fn lemma_keyword_kind(k: CommandKind)
    ensures
        kind_of_keyword(keyword_spec(k)) == Some(k),
{
    let r = keyword_spec(CommandKind::Request);
    let c = keyword_spec(CommandKind::Connect);
    let s = keyword_spec(CommandKind::Success);
    let d = keyword_spec(CommandKind::Disconnect);
    let ci = keyword_spec(CommandKind::ClientInfo);
    let cu = keyword_spec(CommandKind::ClientUpdate);
    let cr = keyword_spec(CommandKind::ClientRemove);
    assert(r[0] != c[0] && r[0] != s[0] && c[0] != s[0]);
    assert(d[0] != ci[0]);
    assert(cu[6] != cr[6]);
    assert(keyword_spec(CommandKind::Info).len() == 4);
    assert(keyword_spec(CommandKind::HeartBeat).len() == 9);
    assert(keyword_spec(CommandKind::Client).len() == 6);
    assert(keyword_spec(CommandKind::Error).len() == 5);
    assert(r.len() == 7 && c.len() == 7 && s.len() == 7);
    assert(d.len() == 10 && ci.len() == 10 && cu.len() == 12 && cr.len() == 12);
}

impl CommandKind {
    /// The keyword of this kind.
    pub fn keyword(&self) -> (r: &'static str)
        ensures
            r@ == keyword_spec(*self),
    {
        match self {
            CommandKind::Request => {
                proof { reveal_strlit("request"); }
                "request"
            },
            CommandKind::Info => {
                proof { reveal_strlit("info"); }
                "info"
            },
            CommandKind::HeartBeat => {
                proof { reveal_strlit("heartbeat"); }
                "heartbeat"
            },
            CommandKind::Connect => {
                proof { reveal_strlit("connect"); }
                "connect"
            },
            CommandKind::Disconnect => {
                proof { reveal_strlit("disconnect"); }
                "disconnect"
            },
            CommandKind::ClientUpdate => {
                proof { reveal_strlit("clientUpdate"); }
                "clientUpdate"
            },
            CommandKind::ClientInfo => {
                proof { reveal_strlit("clientInfo"); }
                "clientInfo"
            },
            CommandKind::ClientRemove => {
                proof { reveal_strlit("clientRemove"); }
                "clientRemove"
            },
            CommandKind::Client => {
                proof { reveal_strlit("client"); }
                "client"
            },
            CommandKind::Success => {
                proof { reveal_strlit("success"); }
                "success"
            },
            CommandKind::Error => {
                proof { reveal_strlit("error"); }
                "error"
            },
        }
    }
}

} // verus!
