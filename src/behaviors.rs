//! One type per command kind, for code that handles a single kind: each
//! builds its protocol command, encodes itself, and recognises commands of
//! its own kind.
use vstd::prelude::*;
use crate::kind::CommandKind;
use crate::commands::{Commands, params_view, encode_spec};
use crate::params::{Params, same_entries};

verus! {
/// The `Request` command.
pub struct Request;

impl Request {
    /// The protocol command.
    pub fn to_command(&self) -> (r: Commands)
        ensures
            r@ == (CommandKind::Request, None::<Map<Seq<char>, Seq<char>>>),
    {
        Commands::Request
    }

    /// The wire frame.
    pub fn to_string(&self) -> (r: String)
        ensures
            r@ == encode_spec(Commands::Request),
    {
        Commands::Request.to_string()
    }
}

impl PartialEq<Commands> for Request {
    fn eq(&self, other: &Commands) -> (r: bool) {
        other.kind() == CommandKind::Request
    }
}

impl vstd::std_specs::cmp::PartialEqSpecImpl<Commands> for Request {
    open spec fn obeys_eq_spec() -> bool {
        true
    }

    open spec fn eq_spec(&self, other: &Commands) -> bool {
        other.spec_kind() == CommandKind::Request
    }
}

/// The `Info` command.
pub struct Info;

impl Info {
    /// The protocol command.
    pub fn to_command(&self) -> (r: Commands)
        ensures
            r@ == (CommandKind::Info, None::<Map<Seq<char>, Seq<char>>>),
    {
        Commands::Info
    }

    /// The wire frame.
    pub fn to_string(&self) -> (r: String)
        ensures
            r@ == encode_spec(Commands::Info),
    {
        Commands::Info.to_string()
    }
}

impl PartialEq<Commands> for Info {
    fn eq(&self, other: &Commands) -> (r: bool) {
        other.kind() == CommandKind::Info
    }
}

impl vstd::std_specs::cmp::PartialEqSpecImpl<Commands> for Info {
    open spec fn obeys_eq_spec() -> bool {
        true
    }

    open spec fn eq_spec(&self, other: &Commands) -> bool {
        other.spec_kind() == CommandKind::Info
    }
}

/// The `HeartBeat` command, with its optional parameter set.
pub struct HeartBeat {
    params: Option<Params>,
}

impl HeartBeat {
    pub closed spec fn spec_params(&self) -> Option<Params> {
        self.params
    }

    /// The command with the given parameters.
    pub fn new(params: Option<Params>) -> (r: HeartBeat)
        ensures
            r.spec_params() == params,
    {
        HeartBeat { params }
    }

    /// A copy of the parameter set.
    pub fn get_params(&self) -> (r: Option<Params>)
        ensures
            same_entries(r, self.spec_params()),
    {
        match &self.params {
            Some(p) => Some(p.clone()),
            None => None,
        }
    }

    /// The protocol command.
    pub fn to_command(&self) -> (r: Commands)
        ensures
            r@ == (CommandKind::HeartBeat, params_view(self.spec_params())),
    {
        Commands::HeartBeat(self.get_params())
    }

    /// The wire frame.
    pub fn to_string(&self) -> (r: String)
        ensures
            r@ == encode_spec(Commands::HeartBeat(self.spec_params())),
    {
        let c = Commands::HeartBeat(self.get_params());
        c.to_string()
    }
}

impl PartialEq<Commands> for HeartBeat {
    fn eq(&self, other: &Commands) -> (r: bool) {
        other.kind() == CommandKind::HeartBeat
    }
}

impl vstd::std_specs::cmp::PartialEqSpecImpl<Commands> for HeartBeat {
    open spec fn obeys_eq_spec() -> bool {
        true
    }

    open spec fn eq_spec(&self, other: &Commands) -> bool {
        other.spec_kind() == CommandKind::HeartBeat
    }
}

/// The `Connect` command, with its optional parameter set.
pub struct Connect {
    params: Option<Params>,
}

impl Connect {
    pub closed spec fn spec_params(&self) -> Option<Params> {
        self.params
    }

    /// The command with the given parameters.
    pub fn new(params: Option<Params>) -> (r: Connect)
        ensures
            r.spec_params() == params,
    {
        Connect { params }
    }

    /// A copy of the parameter set.
    pub fn get_params(&self) -> (r: Option<Params>)
        ensures
            same_entries(r, self.spec_params()),
    {
        match &self.params {
            Some(p) => Some(p.clone()),
            None => None,
        }
    }

    /// The protocol command.
    pub fn to_command(&self) -> (r: Commands)
        ensures
            r@ == (CommandKind::Connect, params_view(self.spec_params())),
    {
        Commands::Connect(self.get_params())
    }

    /// The wire frame.
    pub fn to_string(&self) -> (r: String)
        ensures
            r@ == encode_spec(Commands::Connect(self.spec_params())),
    {
        let c = Commands::Connect(self.get_params());
        c.to_string()
    }
}

impl PartialEq<Commands> for Connect {
    fn eq(&self, other: &Commands) -> (r: bool) {
        other.kind() == CommandKind::Connect
    }
}

impl vstd::std_specs::cmp::PartialEqSpecImpl<Commands> for Connect {
    open spec fn obeys_eq_spec() -> bool {
        true
    }

    open spec fn eq_spec(&self, other: &Commands) -> bool {
        other.spec_kind() == CommandKind::Connect
    }
}

/// The `Disconnect` command.
pub struct Disconnect;

impl Disconnect {
    /// The protocol command.
    pub fn to_command(&self) -> (r: Commands)
        ensures
            r@ == (CommandKind::Disconnect, None::<Map<Seq<char>, Seq<char>>>),
    {
        Commands::Disconnect
    }

    /// The wire frame.
    pub fn to_string(&self) -> (r: String)
        ensures
            r@ == encode_spec(Commands::Disconnect),
    {
        Commands::Disconnect.to_string()
    }
}

impl PartialEq<Commands> for Disconnect {
    fn eq(&self, other: &Commands) -> (r: bool) {
        other.kind() == CommandKind::Disconnect
    }
}

impl vstd::std_specs::cmp::PartialEqSpecImpl<Commands> for Disconnect {
    open spec fn obeys_eq_spec() -> bool {
        true
    }

    open spec fn eq_spec(&self, other: &Commands) -> bool {
        other.spec_kind() == CommandKind::Disconnect
    }
}

/// The `ClientUpdate` command.
pub struct ClientUpdate;

impl ClientUpdate {
    /// The protocol command.
    pub fn to_command(&self) -> (r: Commands)
        ensures
            r@ == (CommandKind::ClientUpdate, None::<Map<Seq<char>, Seq<char>>>),
    {
        Commands::ClientUpdate
    }

    /// The wire frame.
    pub fn to_string(&self) -> (r: String)
        ensures
            r@ == encode_spec(Commands::ClientUpdate),
    {
        Commands::ClientUpdate.to_string()
    }
}

impl PartialEq<Commands> for ClientUpdate {
    fn eq(&self, other: &Commands) -> (r: bool) {
        other.kind() == CommandKind::ClientUpdate
    }
}

impl vstd::std_specs::cmp::PartialEqSpecImpl<Commands> for ClientUpdate {
    open spec fn obeys_eq_spec() -> bool {
        true
    }

    open spec fn eq_spec(&self, other: &Commands) -> bool {
        other.spec_kind() == CommandKind::ClientUpdate
    }
}

/// The `ClientInfo` command, with its optional parameter set.
pub struct ClientInfo {
    params: Option<Params>,
}

impl ClientInfo {
    pub closed spec fn spec_params(&self) -> Option<Params> {
        self.params
    }

    /// The command with the given parameters.
    pub fn new(params: Option<Params>) -> (r: ClientInfo)
        ensures
            r.spec_params() == params,
    {
        ClientInfo { params }
    }

    /// A copy of the parameter set.
    pub fn get_params(&self) -> (r: Option<Params>)
        ensures
            same_entries(r, self.spec_params()),
    {
        match &self.params {
            Some(p) => Some(p.clone()),
            None => None,
        }
    }

    /// The protocol command.
    pub fn to_command(&self) -> (r: Commands)
        ensures
            r@ == (CommandKind::ClientInfo, params_view(self.spec_params())),
    {
        Commands::ClientInfo(self.get_params())
    }

    /// The wire frame.
    pub fn to_string(&self) -> (r: String)
        ensures
            r@ == encode_spec(Commands::ClientInfo(self.spec_params())),
    {
        let c = Commands::ClientInfo(self.get_params());
        c.to_string()
    }
}

impl PartialEq<Commands> for ClientInfo {
    fn eq(&self, other: &Commands) -> (r: bool) {
        other.kind() == CommandKind::ClientInfo
    }
}

impl vstd::std_specs::cmp::PartialEqSpecImpl<Commands> for ClientInfo {
    open spec fn obeys_eq_spec() -> bool {
        true
    }

    open spec fn eq_spec(&self, other: &Commands) -> bool {
        other.spec_kind() == CommandKind::ClientInfo
    }
}

/// The `ClientRemove` command, with its optional parameter set.
pub struct ClientRemove {
    params: Option<Params>,
}

impl ClientRemove {
    pub closed spec fn spec_params(&self) -> Option<Params> {
        self.params
    }

    /// The command with the given parameters.
    pub fn new(params: Option<Params>) -> (r: ClientRemove)
        ensures
            r.spec_params() == params,
    {
        ClientRemove { params }
    }

    /// A copy of the parameter set.
    pub fn get_params(&self) -> (r: Option<Params>)
        ensures
            same_entries(r, self.spec_params()),
    {
        match &self.params {
            Some(p) => Some(p.clone()),
            None => None,
        }
    }

    /// The protocol command.
    pub fn to_command(&self) -> (r: Commands)
        ensures
            r@ == (CommandKind::ClientRemove, params_view(self.spec_params())),
    {
        Commands::ClientRemove(self.get_params())
    }

    /// The wire frame.
    pub fn to_string(&self) -> (r: String)
        ensures
            r@ == encode_spec(Commands::ClientRemove(self.spec_params())),
    {
        let c = Commands::ClientRemove(self.get_params());
        c.to_string()
    }
}

impl PartialEq<Commands> for ClientRemove {
    fn eq(&self, other: &Commands) -> (r: bool) {
        other.kind() == CommandKind::ClientRemove
    }
}

impl vstd::std_specs::cmp::PartialEqSpecImpl<Commands> for ClientRemove {
    open spec fn obeys_eq_spec() -> bool {
        true
    }

    open spec fn eq_spec(&self, other: &Commands) -> bool {
        other.spec_kind() == CommandKind::ClientRemove
    }
}

/// The `Client` command, with its optional parameter set.
pub struct Client {
    params: Option<Params>,
}

impl Client {
    pub closed spec fn spec_params(&self) -> Option<Params> {
        self.params
    }

    /// The command with the given parameters.
    pub fn new(params: Option<Params>) -> (r: Client)
        ensures
            r.spec_params() == params,
    {
        Client { params }
    }

    /// A copy of the parameter set.
    pub fn get_params(&self) -> (r: Option<Params>)
        ensures
            same_entries(r, self.spec_params()),
    {
        match &self.params {
            Some(p) => Some(p.clone()),
            None => None,
        }
    }

    /// The protocol command.
    pub fn to_command(&self) -> (r: Commands)
        ensures
            r@ == (CommandKind::Client, params_view(self.spec_params())),
    {
        Commands::Client(self.get_params())
    }

    /// The wire frame.
    pub fn to_string(&self) -> (r: String)
        ensures
            r@ == encode_spec(Commands::Client(self.spec_params())),
    {
        let c = Commands::Client(self.get_params());
        c.to_string()
    }
}

impl PartialEq<Commands> for Client {
    fn eq(&self, other: &Commands) -> (r: bool) {
        other.kind() == CommandKind::Client
    }
}

impl vstd::std_specs::cmp::PartialEqSpecImpl<Commands> for Client {
    open spec fn obeys_eq_spec() -> bool {
        true
    }

    open spec fn eq_spec(&self, other: &Commands) -> bool {
        other.spec_kind() == CommandKind::Client
    }
}

/// The `Success` command, with its optional parameter set.
pub struct Success {
    params: Option<Params>,
}

impl Success {
    pub closed spec fn spec_params(&self) -> Option<Params> {
        self.params
    }

    /// The command with the given parameters.
    pub fn new(params: Option<Params>) -> (r: Success)
        ensures
            r.spec_params() == params,
    {
        Success { params }
    }

    /// A copy of the parameter set.
    pub fn get_params(&self) -> (r: Option<Params>)
        ensures
            same_entries(r, self.spec_params()),
    {
        match &self.params {
            Some(p) => Some(p.clone()),
            None => None,
        }
    }

    /// The protocol command.
    pub fn to_command(&self) -> (r: Commands)
        ensures
            r@ == (CommandKind::Success, params_view(self.spec_params())),
    {
        Commands::Success(self.get_params())
    }

    /// The wire frame.
    pub fn to_string(&self) -> (r: String)
        ensures
            r@ == encode_spec(Commands::Success(self.spec_params())),
    {
        let c = Commands::Success(self.get_params());
        c.to_string()
    }
}

impl PartialEq<Commands> for Success {
    fn eq(&self, other: &Commands) -> (r: bool) {
        other.kind() == CommandKind::Success
    }
}

impl vstd::std_specs::cmp::PartialEqSpecImpl<Commands> for Success {
    open spec fn obeys_eq_spec() -> bool {
        true
    }

    open spec fn eq_spec(&self, other: &Commands) -> bool {
        other.spec_kind() == CommandKind::Success
    }
}

/// The `Error` command.
pub struct Error;

impl Error {
    /// The protocol command.
    pub fn to_command(&self) -> (r: Commands)
        ensures
            r@ == (CommandKind::Error, None::<Map<Seq<char>, Seq<char>>>),
    {
        Commands::Error
    }

    /// The wire frame.
    pub fn to_string(&self) -> (r: String)
        ensures
            r@ == encode_spec(Commands::Error),
    {
        Commands::Error.to_string()
    }
}

impl PartialEq<Commands> for Error {
    fn eq(&self, other: &Commands) -> (r: bool) {
        other.kind() == CommandKind::Error
    }
}

impl vstd::std_specs::cmp::PartialEqSpecImpl<Commands> for Error {
    open spec fn obeys_eq_spec() -> bool {
        true
    }

    open spec fn eq_spec(&self, other: &Commands) -> bool {
        other.spec_kind() == CommandKind::Error
    }
}

} // verus!
