//! The command model and its wire codec.
//!
//! A frame is `<sigil?><keyword>:[ key:value]*`. Encoding always writes the
//! `!` sigil and quotes a value exactly when it holds a colon; decoding reads
//! the keyword, then the parameters with a small character automaton.
use vstd::prelude::*;
use crate::kind::{CommandKind, keyword_spec, carries_params, kind_of_keyword, lemma_keyword_kind};
use crate::params::{Params, to_map, entries_text, is_space, space_char, param_text, value_text};
use crate::text::{chars_of, string_from_chars};

verus! {

/// One unit of the wire protocol: a kind, and for some kinds a parameter set.
#[derive(Debug)]
pub enum Commands {
    Request,
    Info,
    HeartBeat(Option<Params>),
    Connect(Option<Params>),
    Disconnect,
    ClientUpdate,
    ClientInfo(Option<Params>),
    ClientRemove(Option<Params>),
    Client(Option<Params>),
    Success(Option<Params>),
    Error,
}

/// Why a frame could not be read as a command. Decoding reports only
/// `NoString`; an unknown keyword is not an error but decodes to `Error`.
#[derive(PartialEq, Eq, Structural, Clone, Copy, Debug)]
pub enum CommandParseError {
    UnknownCommand,
    NoString,
}

/// The abstract value of an optional parameter set.
pub open spec fn params_view(p: Option<Params>) -> Option<Map<Seq<char>, Seq<char>>> {
    match p {
        Some(q) => Some(q@),
        None => None,
    }
}

/// A command as the protocol sees it: its kind and its parameter mapping.
pub type CommandView = (CommandKind, Option<Map<Seq<char>, Seq<char>>>);

impl Commands {
    pub open spec fn spec_kind(&self) -> CommandKind {
        match self {
            Commands::Request => CommandKind::Request,
            Commands::Info => CommandKind::Info,
            Commands::HeartBeat(_) => CommandKind::HeartBeat,
            Commands::Connect(_) => CommandKind::Connect,
            Commands::Disconnect => CommandKind::Disconnect,
            Commands::ClientUpdate => CommandKind::ClientUpdate,
            Commands::ClientInfo(_) => CommandKind::ClientInfo,
            Commands::ClientRemove(_) => CommandKind::ClientRemove,
            Commands::Client(_) => CommandKind::Client,
            Commands::Success(_) => CommandKind::Success,
            Commands::Error => CommandKind::Error,
        }
    }

    /// The parameter set, for the kinds that carry one.
    pub open spec fn spec_params(&self) -> Option<Params> {
        match self {
            Commands::HeartBeat(p) => *p,
            Commands::Connect(p) => *p,
            Commands::ClientInfo(p) => *p,
            Commands::ClientRemove(p) => *p,
            Commands::Client(p) => *p,
            Commands::Success(p) => *p,
            _ => None,
        }
    }
}

impl View for Commands {
    type V = CommandView;

    open spec fn view(&self) -> CommandView {
        (self.spec_kind(), params_view(self.spec_params()))
    }
}

/// The frame that encodes `c`.
pub open spec fn encode_spec(c: Commands) -> Seq<char> {
    seq!['!'] + keyword_spec(c.spec_kind()) + seq![':'] + match c.spec_params() {
        Some(p) => entries_text(p.entries()),
        None => Seq::empty(),
    }
}

/// The length of the sigil that opens `t`: `!` and `?` are read alike.
pub open spec fn sigil_len(t: Seq<char>) -> int {
    if t.len() > 0 && (t[0] == '!' || t[0] == '?') {
        1
    } else {
        0
    }
}

/// Whether `c` may stand in a keyword.
pub open spec fn is_word_char(c: char) -> bool {
    ('a' <= c && c <= 'z') || ('A' <= c && c <= 'Z') || ('0' <= c && c <= '9')
}

/// The end of the run of keyword characters that starts at `i`.
pub open spec fn word_end(t: Seq<char>, i: int) -> int
    decreases t.len() - i,
{
    if i < 0 || i >= t.len() || !is_word_char(t[i]) {
        i
    } else {
        word_end(t, i + 1)
    }
}

/// Where the parameter reader stands: reading a key, just after a key's
/// colon, inside a bare value, or inside a quoted value.
pub enum ScanState {
    Key(Seq<char>),
    Start(Seq<char>),
    Bare(Seq<char>, Seq<char>),
    Quoted(Seq<char>, Seq<char>),
}

/// One character read by the parameter reader: its next state and the
/// parameter it completes, if any. A word without a colon is dropped.
pub open spec fn scan_step(st: ScanState, c: char) -> (ScanState, Option<(Seq<char>, Seq<char>)>) {
    match st {
        ScanState::Key(k) => if is_space(c) {
            (ScanState::Key(Seq::empty()), None)
        } else if c == ':' {
            (ScanState::Start(k), None)
        } else {
            (ScanState::Key(k.push(c)), None)
        },
        ScanState::Start(k) => if is_space(c) {
            (ScanState::Key(Seq::empty()), Some((k, Seq::empty())))
        } else if c == '"' {
            (ScanState::Quoted(k, Seq::empty()), None)
        } else {
            (ScanState::Bare(k, seq![c]), None)
        },
        ScanState::Bare(k, v) => if is_space(c) {
            (ScanState::Key(Seq::empty()), Some((k, v)))
        } else {
            (ScanState::Bare(k, v.push(c)), None)
        },
        ScanState::Quoted(k, v) => if c == '"' {
            (ScanState::Key(Seq::empty()), Some((k, v)))
        } else {
            (ScanState::Quoted(k, v.push(c)), None)
        },
    }
}

/// The parameter that the end of the text completes, if any; an unclosed
/// quote drops its parameter.
pub open spec fn scan_finish(st: ScanState) -> Option<(Seq<char>, Seq<char>)> {
    match st {
        ScanState::Key(_) => None,
        ScanState::Start(k) => Some((k, Seq::empty())),
        ScanState::Bare(k, v) => Some((k, v)),
        ScanState::Quoted(_, _) => None,
    }
}

pub open spec fn opt_seq(o: Option<(Seq<char>, Seq<char>)>) -> Seq<(Seq<char>, Seq<char>)> {
    match o {
        Some(p) => seq![p],
        None => Seq::empty(),
    }
}

/// The parameters read from `s`, starting in state `st`, in order.
pub open spec fn scan(st: ScanState, s: Seq<char>) -> Seq<(Seq<char>, Seq<char>)>
    decreases s.len(),
{
    if s.len() == 0 {
        opt_seq(scan_finish(st))
    } else {
        opt_seq(scan_step(st, s[0]).1) + scan(scan_step(st, s[0]).0, s.drop_first())
    }
}

/// The parameter mapping written in the text after a frame's keyword.
pub open spec fn body_params(b: Seq<char>) -> Map<Seq<char>, Seq<char>> {
    to_map(scan(ScanState::Key(Seq::empty()), b))
}

/// The command that a kind and a parameter mapping make: kinds without
/// parameters ignore them, and an empty mapping is no parameter set.
pub open spec fn assemble_spec(k: CommandKind, m: Map<Seq<char>, Seq<char>>) -> CommandView {
    if carries_params(k) && m != Map::<Seq<char>, Seq<char>>::empty() {
        (k, Some(m))
    } else {
        (k, None)
    }
}

/// What decoding a text frame yields.
pub open spec fn decode_spec(t: Seq<char>) -> Result<CommandView, CommandParseError> {
    let s0 = sigil_len(t);
    let e = word_end(t, s0);
    if e < t.len() && t[e] == ':' {
        let k = match kind_of_keyword(t.subrange(s0, e)) {
            Some(k) => k,
            None => CommandKind::Error,
        };
        Ok(assemble_spec(k, body_params(t.subrange(e + 1, t.len() as int))))
    } else {
        Err(CommandParseError::NoString)
    }
}

/// The parameter reader's state, with the characters read so far.
enum Scanner {
    Key(Vec<char>),
    Start(Vec<char>),
    Bare(Vec<char>, Vec<char>),
    Quoted(Vec<char>, Vec<char>),
}

impl View for Scanner {
    type V = ScanState;

    closed spec fn view(&self) -> ScanState {
        match self {
            Scanner::Key(k) => ScanState::Key(k@),
            Scanner::Start(k) => ScanState::Start(k@),
            Scanner::Bare(k, v) => ScanState::Bare(k@, v@),
            Scanner::Quoted(k, v) => ScanState::Quoted(k@, v@),
        }
    }
}

/// The characters of a pair of character vectors, as a pair of sequences.
pub open spec fn pair_view(o: Option<(Vec<char>, Vec<char>)>) -> Option<(Seq<char>, Seq<char>)> {
    match o {
        Some(p) => Some((p.0@, p.1@)),
        None => None,
    }
}

/// Reads one character.
fn scan_char(st: Scanner, c: char) -> (r: (Scanner, Option<(Vec<char>, Vec<char>)>))
    ensures
        r.0@ == scan_step(st@, c).0,
        pair_view(r.1) == scan_step(st@, c).1,
{
    match st {
        Scanner::Key(mut k) => {
            if space_char(c) {
                (Scanner::Key(Vec::new()), None)
            } else if c == ':' {
                (Scanner::Start(k), None)
            } else {
                k.push(c);
                (Scanner::Key(k), None)
            }
        },
        Scanner::Start(k) => {
            if space_char(c) {
                (Scanner::Key(Vec::new()), Some((k, Vec::new())))
            } else if c == '"' {
                (Scanner::Quoted(k, Vec::new()), None)
            } else {
                let mut v: Vec<char> = Vec::new();
                v.push(c);
                assert(v@ =~= seq![c]);
                (Scanner::Bare(k, v), None)
            }
        },
        Scanner::Bare(k, mut v) => {
            if space_char(c) {
                (Scanner::Key(Vec::new()), Some((k, v)))
            } else {
                v.push(c);
                (Scanner::Bare(k, v), None)
            }
        },
        Scanner::Quoted(k, mut v) => {
            if c == '"' {
                (Scanner::Key(Vec::new()), Some((k, v)))
            } else {
                v.push(c);
                (Scanner::Quoted(k, v), None)
            }
        },
    }
}

/// The parameter that the end of the text completes.
fn scan_end(st: Scanner) -> (r: Option<(Vec<char>, Vec<char>)>)
    ensures
        pair_view(r) == scan_finish(st@),
{
    match st {
        Scanner::Key(_) => None,
        Scanner::Start(k) => Some((k, Vec::new())),
        Scanner::Bare(k, v) => Some((k, v)),
        Scanner::Quoted(_, _) => None,
    }
}

/// Adds a completed parameter to the set.
fn add_param(params: &mut Params, p: Option<(Vec<char>, Vec<char>)>)
    ensures
        final(params)@ == to_map_after(old(params)@, pair_view(p)),
{
    match p {
        Some((k, v)) => {
            let key = string_from_chars(k.as_slice());
            let value = string_from_chars(v.as_slice());
            params.insert(key, value);
        },
        None => {},
    }
}

/// The mapping `m` after one optional entry is added.
pub open spec fn to_map_after(m: Map<Seq<char>, Seq<char>>, p: Option<(Seq<char>, Seq<char>)>) -> Map<Seq<char>, Seq<char>> {
    match p {
        Some(q) => m.insert(q.0, q.1),
        None => m,
    }
}

/// Reads the parameters in `t` from position `start` on.
fn read_params(t: &Vec<char>, start: usize) -> (r: Params)
    requires
        start <= t@.len(),
    ensures
        r@ == body_params(t@.subrange(start as int, t@.len() as int)),
{
    let ghost body = t@.subrange(start as int, t@.len() as int);
    let mut params = Params::new();
    let mut st = Scanner::Key(Vec::new());
    let ghost mut done: Seq<(Seq<char>, Seq<char>)> = Seq::empty();
    let mut i: usize = start;
    assert(body.skip(0) =~= body);
    assert(to_map(done) =~= params@);
    while i < t.len()
        invariant
            start <= i <= t@.len(),
            body == t@.subrange(start as int, t@.len() as int),
            params@ == to_map(done),
            done + scan(st@, body.skip(i - start)) == scan(ScanState::Key(Seq::empty()), body),
        decreases t@.len() - i,
    {
        let ghost rest = body.skip(i - start);
        assert(rest[0] == t@[i as int]);
        assert(rest.drop_first() =~= body.skip(i + 1 - start));
        let c = t[i];
        let (next, out) = scan_char(st, c);
        let ghost emitted = opt_seq(pair_view(out));
        add_param(&mut params, out);
        proof {
            lemma_to_map_append(done, pair_view(out));
            assert(done + scan(st@, rest) == done + emitted + scan(next@, body.skip(i + 1 - start)));
            assert(done + scan(st@, rest) =~= (done + emitted) + scan(next@, body.skip(i + 1 - start)));
            done = done + emitted;
        }
        st = next;
        i = i + 1;
    }
    let ghost rest = body.skip(i - start);
    assert(rest.len() == 0);
    let out = scan_end(st);
    proof {
        lemma_to_map_append(done, pair_view(out));
        assert(done + opt_seq(pair_view(out)) =~= scan(ScanState::Key(Seq::empty()), body));
    }
    add_param(&mut params, out);
    params
}

/// Adding an optional entry at the end of a list adds it to the mapping.
pub proof fn lemma_to_map_append(s: Seq<(Seq<char>, Seq<char>)>, p: Option<(Seq<char>, Seq<char>)>)
    ensures
        to_map(s + opt_seq(p)) == to_map_after(to_map(s), p),
{
    match p {
        Some(q) => {
            assert((s + opt_seq(p)).drop_last() =~= s);
        },
        None => {
            assert(s + opt_seq(p) =~= s);
        },
    }
}

/// Whether `kw` is the keyword of `k`.
fn keyword_is(kw: &Vec<char>, k: CommandKind) -> (r: bool)
    ensures
        r == (kw@ == keyword_spec(k)),
{
    let w = chars_of(k.keyword());
    if kw.len() != w.len() {
        return false;
    }
    let mut i: usize = 0;
    while i < w.len()
        invariant
            w@ == keyword_spec(k),
            kw@.len() == w@.len(),
            i <= w@.len(),
            forall|j: int| 0 <= j < i ==> kw@[j] == w@[j],
        decreases w@.len() - i,
    {
        if kw[i] != w[i] {
            return false;
        }
        i = i + 1;
    }
    assert(kw@ =~= w@);
    true
}

/// The kind named by a keyword; an unknown keyword names `Error`.
fn kind_from_keyword(kw: &Vec<char>) -> (r: CommandKind)
    ensures
        r == match kind_of_keyword(kw@) {
            Some(k) => k,
            None => CommandKind::Error,
        },
{
    if keyword_is(kw, CommandKind::Request) {
        CommandKind::Request
    } else if keyword_is(kw, CommandKind::Info) {
        CommandKind::Info
    } else if keyword_is(kw, CommandKind::HeartBeat) {
        CommandKind::HeartBeat
    } else if keyword_is(kw, CommandKind::Connect) {
        CommandKind::Connect
    } else if keyword_is(kw, CommandKind::Disconnect) {
        CommandKind::Disconnect
    } else if keyword_is(kw, CommandKind::ClientUpdate) {
        CommandKind::ClientUpdate
    } else if keyword_is(kw, CommandKind::ClientInfo) {
        CommandKind::ClientInfo
    } else if keyword_is(kw, CommandKind::ClientRemove) {
        CommandKind::ClientRemove
    } else if keyword_is(kw, CommandKind::Client) {
        CommandKind::Client
    } else if keyword_is(kw, CommandKind::Success) {
        CommandKind::Success
    } else {
        CommandKind::Error
    }
}

/// Whether `c` may stand in a keyword.
fn word_char(c: char) -> (r: bool)
    ensures
        r == is_word_char(c),
{
    ('a' <= c && c <= 'z') || ('A' <= c && c <= 'Z') || ('0' <= c && c <= '9')
}

impl Commands {
    /// The command of kind `k` with the parameters `params`; kinds without
    /// parameters drop them, and an empty set becomes no set.
    pub fn assemble(k: CommandKind, params: Params) -> (r: Commands)
        ensures
            r@ == assemble_spec(k, params@),
    {
        proof {
            if params.entries().len() > 0 {
                let e = params.entries();
                assert(params@.dom().contains(e.last().0));
            } else {
                assert(params@ =~= Map::<Seq<char>, Seq<char>>::empty());
            }
        }
        let p = if params.is_empty() {
            None
        } else {
            Some(params)
        };
        match k {
            CommandKind::Request => Commands::Request,
            CommandKind::Info => Commands::Info,
            CommandKind::HeartBeat => Commands::HeartBeat(p),
            CommandKind::Connect => Commands::Connect(p),
            CommandKind::Disconnect => Commands::Disconnect,
            CommandKind::ClientUpdate => Commands::ClientUpdate,
            CommandKind::ClientInfo => Commands::ClientInfo(p),
            CommandKind::ClientRemove => Commands::ClientRemove(p),
            CommandKind::Client => Commands::Client(p),
            CommandKind::Success => Commands::Success(p),
            CommandKind::Error => Commands::Error,
        }
    }

    /// Decodes a text frame. Fails with `NoString` when the text does not open
    /// with a keyword and its colon; an unknown keyword gives `Error`.
    pub fn from_str(data: &str) -> (r: Result<Commands, CommandParseError>)
        ensures
            match r {
                Ok(c) => decode_spec(data@) == Ok::<CommandView, CommandParseError>(c@),
                Err(e) => decode_spec(data@) == Err::<CommandView, CommandParseError>(e),
            },
    {
        let t = chars_of(data);
        let n = t.len();
        let s0: usize = if n > 0 && (t[0] == '!' || t[0] == '?') {
            1
        } else {
            0
        };
        let mut e: usize = s0;
        let mut kw: Vec<char> = Vec::new();
        while e < n && word_char(t[e])
            invariant
                t@ == data@,
                n == t@.len(),
                s0 <= e <= n,
                s0 == sigil_len(t@),
                word_end(t@, s0 as int) == word_end(t@, e as int),
                kw@ == t@.subrange(s0 as int, e as int),
            decreases n - e,
        {
            kw.push(t[e]);
            e = e + 1;
            assert(kw@ =~= t@.subrange(s0 as int, e as int));
        }
        if !(e < n && t[e] == ':') {
            return Err(CommandParseError::NoString);
        }
        let k = kind_from_keyword(&kw);
        let params = read_params(&t, e + 1);
        Ok(Commands::assemble(k, params))
    }

    /// Decodes a text frame; a frame that cannot be read gives `Error`.
    pub fn from_text(data: String) -> (r: Commands)
        ensures
            r@ == decode_or_error(data@),
    {
        match Commands::from_str(data.as_str()) {
            Ok(c) => c,
            Err(_) => Commands::Error,
        }
    }

    /// The kind of this command.
    pub fn kind(&self) -> (r: CommandKind)
        ensures
            r == self.spec_kind(),
    {
        match self {
            Commands::Request => CommandKind::Request,
            Commands::Info => CommandKind::Info,
            Commands::HeartBeat(_) => CommandKind::HeartBeat,
            Commands::Connect(_) => CommandKind::Connect,
            Commands::Disconnect => CommandKind::Disconnect,
            Commands::ClientUpdate => CommandKind::ClientUpdate,
            Commands::ClientInfo(_) => CommandKind::ClientInfo,
            Commands::ClientRemove(_) => CommandKind::ClientRemove,
            Commands::Client(_) => CommandKind::Client,
            Commands::Success(_) => CommandKind::Success,
            Commands::Error => CommandKind::Error,
        }
    }

    /// The parameter set, for the kinds that carry one.
    pub fn params(&self) -> (r: &Option<Params>)
        ensures
            *r == self.spec_params(),
    {
        match self {
            Commands::HeartBeat(p) => p,
            Commands::Connect(p) => p,
            Commands::ClientInfo(p) => p,
            Commands::ClientRemove(p) => p,
            Commands::Client(p) => p,
            Commands::Success(p) => p,
            _ => &None,
        }
    }

    /// Encodes this command as a text frame.
    pub fn to_string(&self) -> (r: String)
        ensures
            r@ == encode_spec(*self),
    {
        let mut out = string_from_chars(&['!']);
        out.append(self.kind().keyword());
        let colon = string_from_chars(&[':']);
        out.append(colon.as_str());
        match self.params() {
            Some(p) => {
                p.write_to(&mut out);
            },
            None => {},
        }
        assert(out@ =~= encode_spec(*self));
        out
    }

    /// Whether two optional parameter sets are equal as mappings; an absent
    /// set equals only an absent set.
    pub fn compare_params(&self, params: &Option<Params>, other_params: &Option<Params>) -> (r: bool)
        ensures
            r == (params_view(*params) == params_view(*other_params)),
    {
        match (params, other_params) {
            (None, None) => true,
            (Some(a), Some(b)) => {
                proof {
                    a@.lemma_submap_eq_iff(b@);
                }
                a.included_in(b) && b.included_in(a)
            },
            _ => false,
        }
    }
}

/// What decoding a text frame yields when an unreadable frame counts as `Error`.
pub open spec fn decode_or_error(t: Seq<char>) -> CommandView {
    match decode_spec(t) {
        Ok(c) => c,
        Err(_) => (CommandKind::Error, None),
    }
}

impl Clone for Commands {
    fn clone(&self) -> (r: Commands)
        ensures
            r@ == self@,
    {
        let p = match self.params() {
            Some(p) => Some(p.clone()),
            None => None,
        };
        match self {
            Commands::Request => Commands::Request,
            Commands::Info => Commands::Info,
            Commands::HeartBeat(_) => Commands::HeartBeat(p),
            Commands::Connect(_) => Commands::Connect(p),
            Commands::Disconnect => Commands::Disconnect,
            Commands::ClientUpdate => Commands::ClientUpdate,
            Commands::ClientInfo(_) => Commands::ClientInfo(p),
            Commands::ClientRemove(_) => Commands::ClientRemove(p),
            Commands::Client(_) => Commands::Client(p),
            Commands::Success(_) => Commands::Success(p),
            Commands::Error => Commands::Error,
        }
    }
}

impl PartialEq for Commands {
    fn eq(&self, other: &Commands) -> (r: bool) {
        self.kind() == other.kind() && self.compare_params(self.params(), other.params())
    }
}

impl vstd::std_specs::cmp::PartialEqSpecImpl for Commands {
    open spec fn obeys_eq_spec() -> bool {
        true
    }

    open spec fn eq_spec(&self, other: &Commands) -> bool {
        self@ == other@
    }
}

/// Every keyword is made of keyword characters.
pub proof fn lemma_keyword_chars(k: CommandKind)
    ensures
        forall|i: int| 0 <= i < keyword_spec(k).len() ==> is_word_char(#[trigger] keyword_spec(k)[i]),
{
    let w = keyword_spec(k);
    match k {
        CommandKind::Request => {
            assert(w.len() == 7);
            assert(is_word_char(w[0]));
            assert(is_word_char(w[1]));
            assert(is_word_char(w[2]));
            assert(is_word_char(w[3]));
            assert(is_word_char(w[4]));
            assert(is_word_char(w[5]));
            assert(is_word_char(w[6]));
        },
        CommandKind::Info => {
            assert(w.len() == 4);
            assert(is_word_char(w[0]));
            assert(is_word_char(w[1]));
            assert(is_word_char(w[2]));
            assert(is_word_char(w[3]));
        },
        CommandKind::HeartBeat => {
            assert(w.len() == 9);
            assert(is_word_char(w[0]));
            assert(is_word_char(w[1]));
            assert(is_word_char(w[2]));
            assert(is_word_char(w[3]));
            assert(is_word_char(w[4]));
            assert(is_word_char(w[5]));
            assert(is_word_char(w[6]));
            assert(is_word_char(w[7]));
            assert(is_word_char(w[8]));
        },
        CommandKind::Connect => {
            assert(w.len() == 7);
            assert(is_word_char(w[0]));
            assert(is_word_char(w[1]));
            assert(is_word_char(w[2]));
            assert(is_word_char(w[3]));
            assert(is_word_char(w[4]));
            assert(is_word_char(w[5]));
            assert(is_word_char(w[6]));
        },
        CommandKind::Disconnect => {
            assert(w.len() == 10);
            assert(is_word_char(w[0]));
            assert(is_word_char(w[1]));
            assert(is_word_char(w[2]));
            assert(is_word_char(w[3]));
            assert(is_word_char(w[4]));
            assert(is_word_char(w[5]));
            assert(is_word_char(w[6]));
            assert(is_word_char(w[7]));
            assert(is_word_char(w[8]));
            assert(is_word_char(w[9]));
        },
        CommandKind::ClientUpdate => {
            assert(w.len() == 12);
            assert(is_word_char(w[0]));
            assert(is_word_char(w[1]));
            assert(is_word_char(w[2]));
            assert(is_word_char(w[3]));
            assert(is_word_char(w[4]));
            assert(is_word_char(w[5]));
            assert(is_word_char(w[6]));
            assert(is_word_char(w[7]));
            assert(is_word_char(w[8]));
            assert(is_word_char(w[9]));
            assert(is_word_char(w[10]));
            assert(is_word_char(w[11]));
        },
        CommandKind::ClientInfo => {
            assert(w.len() == 10);
            assert(is_word_char(w[0]));
            assert(is_word_char(w[1]));
            assert(is_word_char(w[2]));
            assert(is_word_char(w[3]));
            assert(is_word_char(w[4]));
            assert(is_word_char(w[5]));
            assert(is_word_char(w[6]));
            assert(is_word_char(w[7]));
            assert(is_word_char(w[8]));
            assert(is_word_char(w[9]));
        },
        CommandKind::ClientRemove => {
            assert(w.len() == 12);
            assert(is_word_char(w[0]));
            assert(is_word_char(w[1]));
            assert(is_word_char(w[2]));
            assert(is_word_char(w[3]));
            assert(is_word_char(w[4]));
            assert(is_word_char(w[5]));
            assert(is_word_char(w[6]));
            assert(is_word_char(w[7]));
            assert(is_word_char(w[8]));
            assert(is_word_char(w[9]));
            assert(is_word_char(w[10]));
            assert(is_word_char(w[11]));
        },
        CommandKind::Client => {
            assert(w.len() == 6);
            assert(is_word_char(w[0]));
            assert(is_word_char(w[1]));
            assert(is_word_char(w[2]));
            assert(is_word_char(w[3]));
            assert(is_word_char(w[4]));
            assert(is_word_char(w[5]));
        },
        CommandKind::Success => {
            assert(w.len() == 7);
            assert(is_word_char(w[0]));
            assert(is_word_char(w[1]));
            assert(is_word_char(w[2]));
            assert(is_word_char(w[3]));
            assert(is_word_char(w[4]));
            assert(is_word_char(w[5]));
            assert(is_word_char(w[6]));
        },
        CommandKind::Error => {
            assert(w.len() == 5);
            assert(is_word_char(w[0]));
            assert(is_word_char(w[1]));
            assert(is_word_char(w[2]));
            assert(is_word_char(w[3]));
            assert(is_word_char(w[4]));
        },
    }
}

/// A key that encodes and decodes unchanged: no separator and no colon.
pub open spec fn key_ok(k: Seq<char>) -> bool {
    forall|i: int| 0 <= i < k.len() ==> !is_space(#[trigger] k[i]) && k[i] != ':'
}

/// A value that encodes and decodes unchanged: a quoted value holds no
/// quote; a bare one holds no separator and does not open with a quote.
pub open spec fn value_ok(v: Seq<char>) -> bool {
    if v.contains(':') {
        !v.contains('"')
    } else {
        (forall|i: int| 0 <= i < v.len() ==> !is_space(#[trigger] v[i])) && (v.len() == 0 || v[0] != '"')
    }
}

/// A list of entries that encodes and decodes unchanged.
pub open spec fn entries_ok(s: Seq<(Seq<char>, Seq<char>)>) -> bool {
    forall|i: int| 0 <= i < s.len() ==> key_ok(#[trigger] s[i].0) && value_ok(s[i].1)
}

/// A command whose frame decodes back to it: a parameter set, when present,
/// is not empty and its keys and values encode unchanged.
pub open spec fn encodable(c: Commands) -> bool {
    match c.spec_params() {
        Some(p) => p.entries().len() > 0 && entries_ok(p.entries()),
        None => true,
    }
}

pub proof fn lemma_word_end(t: Seq<char>, i: int, e: int)
    requires
        0 <= i <= e <= t.len(),
        forall|j: int| i <= j < e ==> is_word_char(#[trigger] t[j]),
        e == t.len() || !is_word_char(t[e]),
    ensures
        word_end(t, i) == e,
    decreases e - i,
{
    if i < e {
        lemma_word_end(t, i + 1, e);
    }
}

pub proof fn lemma_scan_key(pre: Seq<char>, k: Seq<char>, rest: Seq<char>)
    requires
        key_ok(k),
    ensures
        scan(ScanState::Key(pre), k + rest) == scan(ScanState::Key(pre + k), rest),
    decreases k.len(),
{
    if k.len() == 0 {
        assert(k + rest =~= rest);
        assert(pre + k =~= pre);
    } else {
        let s = k + rest;
        assert(s[0] == k[0]);
        assert(s.drop_first() =~= k.drop_first() + rest);
        lemma_scan_key(pre.push(k[0]), k.drop_first(), rest);
        assert(pre.push(k[0]) + k.drop_first() =~= pre + k);
        assert(opt_seq(None) + scan(ScanState::Key(pre.push(k[0])), s.drop_first()) =~= scan(ScanState::Key(pre.push(k[0])), s.drop_first()));
    }
}

pub proof fn lemma_scan_bare(k: Seq<char>, pre: Seq<char>, w: Seq<char>, rest: Seq<char>)
    requires
        forall|i: int| 0 <= i < w.len() ==> !is_space(#[trigger] w[i]),
    ensures
        scan(ScanState::Bare(k, pre), w + rest) == scan(ScanState::Bare(k, pre + w), rest),
    decreases w.len(),
{
    if w.len() == 0 {
        assert(w + rest =~= rest);
        assert(pre + w =~= pre);
    } else {
        let s = w + rest;
        assert(s[0] == w[0]);
        assert(s.drop_first() =~= w.drop_first() + rest);
        lemma_scan_bare(k, pre.push(w[0]), w.drop_first(), rest);
        assert(pre.push(w[0]) + w.drop_first() =~= pre + w);
        assert(opt_seq(None) + scan(ScanState::Bare(k, pre.push(w[0])), s.drop_first()) =~= scan(ScanState::Bare(k, pre.push(w[0])), s.drop_first()));
    }
}

pub proof fn lemma_scan_quoted(k: Seq<char>, pre: Seq<char>, w: Seq<char>, rest: Seq<char>)
    requires
        !w.contains('"'),
    ensures
        scan(ScanState::Quoted(k, pre), w + rest) == scan(ScanState::Quoted(k, pre + w), rest),
    decreases w.len(),
{
    if w.len() == 0 {
        assert(w + rest =~= rest);
        assert(pre + w =~= pre);
    } else {
        let s = w + rest;
        assert(s[0] == w[0]);
        assert(w[0] != '"') by {
            assert(w.contains(w[0]));
        }
        assert(s.drop_first() =~= w.drop_first() + rest);
        assert(!w.drop_first().contains('"')) by {
            if w.drop_first().contains('"') {
                let j = choose|j: int| 0 <= j < w.drop_first().len() && w.drop_first()[j] == '"';
                assert(w[j + 1] == '"');
            }
        }
        lemma_scan_quoted(k, pre.push(w[0]), w.drop_first(), rest);
        assert(pre.push(w[0]) + w.drop_first() =~= pre + w);
        assert(opt_seq(None) + scan(ScanState::Quoted(k, pre.push(w[0])), s.drop_first()) =~= scan(ScanState::Quoted(k, pre.push(w[0])), s.drop_first()));
    }
}

/// A separator read between parameters changes nothing.
pub proof fn lemma_scan_space(rest: Seq<char>)
    requires
        rest.len() > 0,
        is_space(rest[0]),
    ensures
        scan(ScanState::Key(Seq::empty()), rest) == scan(ScanState::Key(Seq::empty()), rest.drop_first()),
{
    assert(opt_seq(None) + scan(ScanState::Key(Seq::empty()), rest.drop_first()) =~= scan(ScanState::Key(Seq::empty()), rest.drop_first()));
}

/// One encoded parameter, followed by the end or a separator, decodes to itself.
pub proof fn lemma_scan_param(k: Seq<char>, v: Seq<char>, rest: Seq<char>)
    requires
        key_ok(k),
        value_ok(v),
        rest.len() == 0 || is_space(rest[0]),
    ensures
        scan(ScanState::Key(Seq::empty()), param_text(k, v) + rest) == seq![(k, v)] + scan(ScanState::Key(Seq::empty()), rest),
{
    let e = Seq::<char>::empty();
    let vt = value_text(v);
    let t = param_text(k, v) + rest;
    assert(t =~= seq![' '] + (k + (seq![':'] + (vt + rest))));
    // the leading separator
    assert(t[0] == ' ');
    assert(t.drop_first() =~= k + (seq![':'] + (vt + rest)));
    lemma_scan_space(t);
    // the key
    lemma_scan_key(e, k, seq![':'] + (vt + rest));
    assert(e + k =~= k);
    // the colon
    let c = seq![':'] + (vt + rest);
    assert(c[0] == ':');
    assert(c.drop_first() =~= vt + rest);
    assert(opt_seq(None) + scan(ScanState::Start(k), vt + rest) =~= scan(ScanState::Start(k), vt + rest));
    assert(scan(ScanState::Key(k), c) == scan(ScanState::Start(k), vt + rest));
    assert(scan(ScanState::Key(e), t) == scan(ScanState::Start(k), vt + rest));
    if v.contains(':') {
        // a quoted value
        let q = vt + rest;
        assert(q =~= seq!['"'] + (v + (seq!['"'] + rest)));
        assert(q[0] == '"');
        assert(q.drop_first() =~= v + (seq!['"'] + rest));
        assert(opt_seq(None) + scan(ScanState::Quoted(k, e), q.drop_first()) =~= scan(ScanState::Quoted(k, e), q.drop_first()));
        lemma_scan_quoted(k, e, v, seq!['"'] + rest);
        assert(e + v =~= v);
        let z = seq!['"'] + rest;
        assert(z[0] == '"');
        assert(z.drop_first() =~= rest);
        assert(scan(ScanState::Quoted(k, v), z) == seq![(k, v)] + scan(ScanState::Key(e), rest));
        assert(scan(ScanState::Start(k), q) == scan(ScanState::Quoted(k, e), v + z));
    } else if v.len() == 0 {
        assert(vt + rest =~= rest);
        assert(v =~= e);
        if rest.len() == 0 {
            assert(scan(ScanState::Start(k), rest) == seq![(k, e)]);
            assert(scan(ScanState::Key(e), rest) == Seq::<(Seq<char>, Seq<char>)>::empty());
            assert(seq![(k, v)] + scan(ScanState::Key(e), rest) =~= seq![(k, e)]);
        } else {
            assert(scan(ScanState::Start(k), rest) == seq![(k, e)] + scan(ScanState::Key(e), rest.drop_first()));
            lemma_scan_space(rest);
        }
    } else {
        // a bare value
        let b = vt + rest;
        assert(b =~= seq![v[0]] + (v.drop_first() + rest));
        assert(b[0] == v[0]);
        assert(!is_space(v[0]));
        assert(b.drop_first() =~= v.drop_first() + rest);
        assert(opt_seq(None) + scan(ScanState::Bare(k, seq![v[0]]), b.drop_first()) =~= scan(ScanState::Bare(k, seq![v[0]]), b.drop_first()));
        assert forall|i: int| 0 <= i < v.drop_first().len() implies !is_space(#[trigger] v.drop_first()[i]) by {
            assert(v.drop_first()[i] == v[i + 1]);
        }
        lemma_scan_bare(k, seq![v[0]], v.drop_first(), rest);
        assert(seq![v[0]] + v.drop_first() =~= v);
        if rest.len() > 0 {
            assert(scan(ScanState::Bare(k, v), rest) == seq![(k, v)] + scan(ScanState::Key(e), rest.drop_first()));
            lemma_scan_space(rest);
        } else {
            assert(scan(ScanState::Key(e), rest) == Seq::<(Seq<char>, Seq<char>)>::empty());
            assert(seq![(k, v)] + scan(ScanState::Key(e), rest) =~= seq![(k, v)]);
        }
        assert(scan(ScanState::Start(k), b) == scan(ScanState::Bare(k, seq![v[0]]), v.drop_first() + rest));
        assert(scan(ScanState::Bare(k, v), rest) == seq![(k, v)] + scan(ScanState::Key(e), rest));
    }
}

/// The wire text of entries, read from the front.
pub proof fn lemma_entries_text_front(s: Seq<(Seq<char>, Seq<char>)>)
    requires
        s.len() > 0,
    ensures
        entries_text(s) == param_text(s[0].0, s[0].1) + entries_text(s.drop_first()),
    decreases s.len(),
{
    if s.len() == 1 {
        assert(s.drop_last() =~= Seq::<(Seq<char>, Seq<char>)>::empty());
        assert(s.drop_first() =~= Seq::<(Seq<char>, Seq<char>)>::empty());
        assert(entries_text(s) =~= param_text(s[0].0, s[0].1) + entries_text(s.drop_first()));
    } else {
        let d = s.drop_last();
        lemma_entries_text_front(d);
        assert(d.drop_first() =~= s.drop_first().drop_last());
        assert(s.drop_first().last() == s.last());
        assert(d[0] == s[0]);
        assert(entries_text(s) =~= param_text(s[0].0, s[0].1) + entries_text(s.drop_first()));
    }
}

/// The wire text of well-formed entries reads back as the same entries.
pub proof fn lemma_scan_entries(s: Seq<(Seq<char>, Seq<char>)>)
    requires
        entries_ok(s),
    ensures
        scan(ScanState::Key(Seq::empty()), entries_text(s)) == s,
    decreases s.len(),
{
    if s.len() == 0 {
        assert(entries_text(s) == Seq::<char>::empty());
        assert(scan(ScanState::Key(Seq::empty()), entries_text(s)) =~= s);
    } else {
        lemma_entries_text_front(s);
        let r = s.drop_first();
        assert(entries_ok(r)) by {
            assert forall|i: int| 0 <= i < r.len() implies key_ok(#[trigger] r[i].0) && value_ok(r[i].1) by {
                assert(r[i] == s[i + 1]);
            }
        }
        assert(key_ok(s[0].0) && value_ok(s[0].1));
        lemma_scan_entries(r);
        if r.len() > 0 {
            lemma_entries_text_front(r);
            assert(entries_text(r)[0] == ' ');
        }
        lemma_scan_param(s[0].0, s[0].1, entries_text(r));
        assert(seq![(s[0].0, s[0].1)] + r =~= s);
    }
}

/// Decoding the frame of an encodable command gives the command back, as a
/// kind and a parameter mapping. This covers values with a colon, which
/// travel in quotes.
pub proof fn lemma_round_trip(c: Commands)
    requires
        encodable(c),
    ensures
        decode_spec(encode_spec(c)) == Ok::<CommandView, CommandParseError>(c@),
{
    let k = c.spec_kind();
    let w = keyword_spec(k);
    let body = match c.spec_params() {
        Some(p) => entries_text(p.entries()),
        None => Seq::<char>::empty(),
    };
    let t = encode_spec(c);
    assert(t =~= seq!['!'] + (w + (seq![':'] + body)));
    assert(sigil_len(t) == 1);
    lemma_keyword_chars(k);
    let e: int = 1 + w.len() as int;
    assert forall|j: int| 1 <= j < e implies is_word_char(#[trigger] t[j]) by {
        assert(t[j] == w[j - 1]);
    }
    assert(t[e] == ':');
    lemma_word_end(t, 1, e);
    assert(t.subrange(1, e) =~= w);
    lemma_keyword_kind(k);
    assert(t.subrange(e + 1, t.len() as int) =~= body);
    match c.spec_params() {
        Some(p) => {
            lemma_scan_entries(p.entries());
            let es = p.entries();
            assert(es.drop_last().len() < es.len());
            assert(body_params(body) == p@);
            assert(p@.dom().contains(es.last().0));
            assert(carries_params(k));
        },
        None => {
            assert(scan(ScanState::Key(Seq::empty()), body) == Seq::<(Seq<char>, Seq<char>)>::empty());
            assert(body_params(body) == Map::<Seq<char>, Seq<char>>::empty());
        },
    }
}

/// Whether `t` opens with a keyword and its colon, after an optional sigil.
pub open spec fn has_header(t: Seq<char>) -> bool {
    word_end(t, sigil_len(t)) < t.len() && t[word_end(t, sigil_len(t))] == ':'
}

/// Decoding is total: a text without a leading keyword and colon fails with
/// `NoString` and nothing else, and any other text decodes, an unknown
/// keyword to `Error` without parameters.
pub proof fn lemma_decode_total(t: Seq<char>)
    ensures
        decode_spec(t) is Err <==> !has_header(t),
        decode_spec(t) is Err ==> decode_spec(t) == Err::<CommandView, CommandParseError>(CommandParseError::NoString),
        has_header(t) && kind_of_keyword(t.subrange(sigil_len(t), word_end(t, sigil_len(t)))) is None
            ==> decode_spec(t) == Ok::<CommandView, CommandParseError>((CommandKind::Error, None)),
{
}

/// Entry point that turns received text into commands.
pub struct CommandsAPI;

impl CommandsAPI {
    /// Decodes a text frame; a frame that cannot be read gives `Error`.
    pub fn generate_from(data: String) -> (r: Commands)
        ensures
            r@ == decode_or_error(data@),
    {
        Commands::from_text(data)
    }
}

} // verus!
