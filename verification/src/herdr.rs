//! What a client of herdr's Unix-socket API sends, expects and refuses.
//!
//! herdr's daemon is the stateful authority. Each request is one line of JSON over a
//! connection of its own, and one line comes back.

use vstd::prelude::*;

use crate::json::{
    encode_json, json_bytes, json_parsed, parse_json, text_option, Json, JsonView, Object,
};
use crate::text::{decimal, join, joined, parse_unsigned, same, texts, to_decimal, trim, trimmed, unsigned};

verus! {

/// Why a request failed.
#[derive(Debug)]
pub enum HerdrError {
    /// Socket discovery, connect, read or encode failure: the request never got a clean
    /// answer from herdr.
    Transport(String),
    /// herdr returned a structured error.
    Api { code: String, message: String },
}

/// What a failure is.
pub enum HerdrErrorView {
    Transport(Seq<char>),
    Api { code: Seq<char>, message: Seq<char> },
}

impl HerdrErrorView {
    /// The failure in one line.
    pub open spec fn line(self) -> Seq<char> {
        match self {
            HerdrErrorView::Transport(message) => message,
            HerdrErrorView::Api { code, message } => code + ": "@ + message,
        }
    }
}

impl HerdrError {
    pub open spec fn view(self) -> HerdrErrorView {
        match self {
            HerdrError::Transport(message) => HerdrErrorView::Transport(message@),
            HerdrError::Api { code, message } => HerdrErrorView::Api {
                code: code@,
                message: message@,
            },
        }
    }

    /// The failure in one line.
    pub fn text(&self) -> (line: String)
        ensures
            line@ == self@.line(),
    {
        match self {
            HerdrError::Transport(message) => message.clone(),
            HerdrError::Api { code, message } => {
                let mut line: String = code.clone();
                line.append(": ");
                line.append(message.as_str());
                line
            },
        }
    }
}

/// A length of time: seconds, and nanoseconds below one second.
#[derive(Debug, Clone, Copy, PartialEq, Eq, Structural)]
pub struct Deadline {
    pub secs: u64,
    pub nanos: u32,
}

impl Deadline {
    /// Whether the nanoseconds are below one second.
    pub open spec fn wf(self) -> bool {
        self.nanos < 1_000_000_000
    }

    /// Whether the length of time is a number of milliseconds.
    pub open spec fn lasts(self, millis: int) -> bool {
        self.secs * 1_000_000_000 + self.nanos == millis * 1_000_000
    }
}

/// The text that `{:?}` gives a `std::time::Duration`.
pub uninterp spec fn debug_duration(secs: u64, nanos: u32) -> Seq<char>;

/// `format!` with `{:?}` of a `std::time::Duration`. What it gives is a function of the length
/// of time.
#[verifier::external_body]
fn duration_text(secs: u64, nanos: u32) -> (r: String)
    requires
        nanos < 1_000_000_000,
    ensures
        r@ == debug_duration(secs, nanos),
{
    format!("{:?}", std::time::Duration::new(secs, nanos))
}

/// How long a request may take that does not say, in milliseconds: what the setting says, if
/// that is a number, else five minutes.
pub open spec fn default_millis(setting: Option<Seq<char>>) -> int {
    match setting {
        Some(text) => match unsigned(text) {
            Some(ms) => ms as int,
            None => 300_000,
        },
        None => 300_000,
    }
}

/// How long to wait for the answer to a request, in milliseconds: what its parameters say,
/// and five seconds more, so that herdr's own timeout comes first.
pub open spec fn effective_millis(params: JsonView, setting: Option<Seq<char>>) -> int {
    let own = match params.member("timeout_ms"@) {
        Some(value) => value.unsigned(),
        None => None,
    };
    match own {
        Some(ms) => ms + 5_000,
        None => default_millis(setting),
    }
}

/// How long a request may take that does not say.
pub fn default_timeout(setting: Option<&str>) -> (deadline: Deadline)
    ensures
        deadline.wf(),
        deadline.lasts(default_millis(text_option(setting))),
{
    let parsed: Option<u64> = match setting {
        Some(text) => parse_unsigned(text),
        None => None,
    };
    match parsed {
        Some(ms) => Deadline { secs: ms / 1000, nanos: (ms % 1000) as u32 * 1_000_000 },
        None => Deadline { secs: 300, nanos: 0 },
    }
}

/// How long to wait for the answer to a request.
pub fn effective_timeout(params: &Json, setting: Option<&str>) -> (deadline: Deadline)
    ensures
        deadline.wf(),
        deadline.lasts(effective_millis(params@, text_option(setting))),
{
    let own: Option<u64> = match params.get("timeout_ms") {
        Some(value) => value.as_u64(),
        None => None,
    };
    match own {
        Some(ms) => Deadline { secs: ms / 1000 + 5, nanos: (ms % 1000) as u32 * 1_000_000 },
        None => default_timeout(setting),
    }
}

/// A path and a further part. A part that starts at the root stands for itself.
pub open spec fn path_join(base: Seq<u8>, part: Seq<u8>) -> Seq<u8> {
    if part.len() > 0 && part.first() == 47u8 {
        part
    } else if base.len() > 0 && base.last() != 47u8 {
        base.push(47u8) + part
    } else {
        base + part
    }
}

/// The bytes of a text.
pub open spec fn bytes_of(text: Seq<char>) -> Seq<u8> {
    vstd::utf8::encode_utf8(text)
}

/// The directory of herdr's files under a home directory.
pub open spec fn config_dir_under(home: Seq<u8>) -> Seq<u8> {
    path_join(path_join(home, bytes_of(".config"@)), bytes_of("herdr"@))
}

/// The socket of a session under a home directory.
pub open spec fn session_socket_under(home: Seq<u8>, session: Seq<char>) -> Seq<u8> {
    path_join(
        path_join(
            path_join(config_dir_under(home), bytes_of("sessions"@)),
            bytes_of(session),
        ),
        bytes_of("herdr.sock"@),
    )
}

/// The failure to find a home directory.
pub open spec fn no_home() -> HerdrErrorView {
    HerdrErrorView::Transport("HOME is not set; cannot locate herdr socket"@)
}

/// What an attempt to find a path is.
pub open spec fn path_outcome(r: Result<Vec<u8>, HerdrError>) -> Result<Seq<u8>, HerdrErrorView> {
    match r {
        Ok(path) => Ok(path@),
        Err(error) => Err(error@),
    }
}

/// What an optional path is.
pub open spec fn path_option(path: Option<&[u8]>) -> Option<Seq<u8>> {
    match path {
        Some(bytes) => Some(bytes@),
        None => None,
    }
}

/// The directory of herdr's files, if there is a home directory.
pub open spec fn config_dir_for(home: Option<Seq<u8>>) -> Result<Seq<u8>, HerdrErrorView> {
    match home {
        Some(home) => Ok(config_dir_under(home)),
        None => Err(no_home()),
    }
}

/// The socket of a session, which has to have a name.
pub open spec fn session_socket_for(session: Seq<char>, home: Option<Seq<u8>>) -> Result<
    Seq<u8>,
    HerdrErrorView,
> {
    if session.len() == 0 {
        Err(HerdrErrorView::Transport("HERDR_SESSION must not be empty"@))
    } else {
        match home {
            Some(home) => Ok(session_socket_under(home, session)),
            None => Err(no_home()),
        }
    }
}

/// The default socket, if there is a home directory.
pub open spec fn default_socket_for(home: Option<Seq<u8>>) -> Result<Seq<u8>, HerdrErrorView> {
    match home {
        Some(home) => Ok(path_join(config_dir_under(home), bytes_of("herdr.sock"@))),
        None => Err(no_home()),
    }
}

/// The path that was found, or none.
pub open spec fn found(place: Result<Seq<u8>, HerdrErrorView>) -> Seq<Seq<u8>> {
    match place {
        Ok(path) => seq![path],
        Err(_) => Seq::empty(),
    }
}

/// The paths at which herdr's socket is looked for, in order: the one that is given, that of the
/// session that is given, the default one. After a path that is given, what cannot be formed is
/// left out; without one, it is a failure.
pub open spec fn socket_places(
    explicit: Option<Seq<u8>>,
    session: Option<Seq<char>>,
    home: Option<Seq<u8>>,
) -> Result<Seq<Seq<u8>>, HerdrErrorView> {
    match (explicit, session) {
        (Some(path), Some(session)) => Ok(
            seq![path] + found(session_socket_for(session, home)) + found(default_socket_for(home)),
        ),
        (Some(path), None) => Ok(seq![path] + found(default_socket_for(home))),
        (None, Some(session)) => match session_socket_for(session, home) {
            Ok(path) => Ok(seq![path] + found(default_socket_for(home))),
            Err(error) => Err(error),
        },
        (None, None) => match default_socket_for(home) {
            Ok(path) => Ok(seq![path]),
            Err(error) => Err(error),
        },
    }
}

/// What a list of paths is.
pub open spec fn paths(list: Seq<Vec<u8>>) -> Seq<Seq<u8>> {
    list.map_values(|path: Vec<u8>| path@)
}

/// What an attempt to find paths is.
pub open spec fn paths_outcome(r: Result<Vec<Vec<u8>>, HerdrError>) -> Result<
    Seq<Seq<u8>>,
    HerdrErrorView,
> {
    match r {
        Ok(list) => Ok(paths(list@)),
        Err(error) => Err(error@),
    }
}

/// A path and a further part.
fn push_part(base: Vec<u8>, part: &[u8]) -> (path: Vec<u8>)
    ensures
        path@ == path_join(base@, part@),
{
    let absolute: bool = part.len() > 0 && part[0] == 47;
    let mut path: Vec<u8> = if absolute {
        Vec::new()
    } else {
        base
    };
    let n: usize = path.len();
    if n > 0 && path[n - 1] != 47 {
        path.push(47);
    }
    let ghost start = path@;
    let mut i: usize = 0;
    assert(start + part@.take(0) =~= start);
    while i < part.len()
        invariant
            i <= part.len(),
            path@ == start + part@.take(i as int),
        decreases part.len() - i,
    {
        path.push(part[i]);
        i = i + 1;
        assert(path@ =~= start + part@.take(i as int));
    }
    assert(path@ =~= path_join(base@, part@));
    path
}

/// The directory of herdr's files.
pub fn config_dir(home: Option<&[u8]>) -> (r: Result<Vec<u8>, HerdrError>)
    ensures
        path_outcome(r) == config_dir_for(path_option(home)),
{
    match home {
        Some(home) => {
            let start: Vec<u8> = push_part(Vec::new(), home);
            assert(start@ =~= home@);
            Ok(push_part(push_part(start, ".config".as_bytes()), "herdr".as_bytes()))
        },
        None => Err(
            HerdrError::Transport("HOME is not set; cannot locate herdr socket".to_string()),
        ),
    }
}

/// The socket of a session.
pub fn session_socket_path(session: &str, home: Option<&[u8]>) -> (r: Result<Vec<u8>, HerdrError>)
    ensures
        path_outcome(r) == session_socket_for(session@, path_option(home)),
{
    if session.is_empty() {
        return Err(HerdrError::Transport("HERDR_SESSION must not be empty".to_string()));
    }
    match config_dir(home) {
        Ok(dir) => Ok(
            push_part(
                push_part(push_part(dir, "sessions".as_bytes()), session.as_bytes()),
                "herdr.sock".as_bytes(),
            ),
        ),
        Err(error) => Err(error),
    }
}

/// The default socket.
fn default_socket_path(home: Option<&[u8]>) -> (r: Result<Vec<u8>, HerdrError>)
    ensures
        path_outcome(r) == default_socket_for(path_option(home)),
{
    match config_dir(home) {
        Ok(dir) => Ok(push_part(dir, "herdr.sock".as_bytes())),
        Err(error) => Err(error),
    }
}

/// Adds a path to a list, where it was found.
fn push_found(list: &mut Vec<Vec<u8>>, place: Result<Vec<u8>, HerdrError>)
    ensures
        paths(final(list)@) == paths(old(list)@) + found(path_outcome(place)),
{
    if let Ok(path) = place {
        list.push(path);
    }
    assert(paths(list@) =~= paths(old(list)@) + found(path_outcome(place)));
}

/// The paths at which herdr's socket is looked for, in order.
pub fn socket_candidates(
    explicit: Option<&[u8]>,
    session: Option<&str>,
    home: Option<&[u8]>,
) -> (r: Result<Vec<Vec<u8>>, HerdrError>)
    ensures
        paths_outcome(r) == socket_places(
            path_option(explicit),
            text_option(session),
            path_option(home),
        ),
{
    let mut list: Vec<Vec<u8>> = Vec::new();
    match explicit {
        Some(path) => {
            let copy: Vec<u8> = push_part(Vec::new(), path);
            assert(copy@ =~= path@);
            list.push(copy);
            assert(paths(list@) =~= seq![path@]);
            if let Some(session) = session {
                push_found(&mut list, session_socket_path(session, home));
            }
            push_found(&mut list, default_socket_path(home));
        },
        None => {
            let first: Result<Vec<u8>, HerdrError> = match session {
                Some(session) => session_socket_path(session, home),
                None => default_socket_path(home),
            };
            match first {
                Ok(path) => {
                    list.push(path);
                    assert(paths(list@) =~= seq![path@]);
                },
                Err(error) => {
                    return Err(error);
                },
            }
            if session.is_some() {
                push_found(&mut list, default_socket_path(home));
            }
        },
    }
    Ok(list)
}

/// A path at which the socket was looked for: the path, how it is shown, and whether
/// something is there.
#[derive(Debug)]
pub struct Candidate {
    pub path: Vec<u8>,
    pub shown: String,
    pub exists: bool,
}

/// How candidates are shown.
pub open spec fn shown(candidates: Seq<Candidate>) -> Seq<Seq<char>> {
    candidates.map_values(|c: Candidate| c.shown@)
}

/// The first candidate with something there, else the failure that lists them all.
pub open spec fn first_existing(candidates: Seq<Candidate>, all: Seq<Seq<char>>) -> Result<
    Seq<u8>,
    HerdrErrorView,
>
    decreases candidates.len(),
{
    if candidates.len() == 0 {
        Err(
            HerdrErrorView::Transport(
                "no herdr socket found; checked: "@ + joined(all, ", "@),
            ),
        )
    } else if candidates.first().exists {
        Ok(candidates.first().path@)
    } else {
        first_existing(candidates.drop_first(), all)
    }
}

/// Picks the first candidate with something there.
pub fn pick_socket(candidates: Vec<Candidate>) -> (r: Result<Vec<u8>, HerdrError>)
    ensures
        path_outcome(r) == first_existing(candidates@, shown(candidates@)),
{
    let ghost all = shown(candidates@);
    let mut names: Vec<String> = Vec::new();
    let mut i: usize = 0;
    assert(candidates@.skip(0) =~= candidates@);
    while i < candidates.len()
        invariant
            i <= candidates.len(),
            all == shown(candidates@),
            first_existing(candidates@, all) == first_existing(candidates@.skip(i as int), all),
            texts(names@) == all.take(i as int),
        decreases candidates.len() - i,
    {
        assert(candidates@.skip(i as int).drop_first() =~= candidates@.skip(i + 1));
        if candidates[i].exists {
            let path: Vec<u8> = push_part(Vec::new(), &candidates[i].path);
            assert(path@ =~= candidates@[i as int].path@);
            return Ok(path);
        }
        let ghost before = texts(names@);
        names.push(candidates[i].shown.clone());
        proof {
            assert(texts(names@) =~= before.push(all[i as int]));
            assert(all.take(i + 1) =~= all.take(i as int).push(all[i as int]));
        }
        i = i + 1;
    }
    assert(all.take(all.len() as int) =~= all);
    let mut message: String = "no herdr socket found; checked: ".to_string();
    message.append(join(&names, ", ").as_str());
    Err(HerdrError::Transport(message))
}

/// The id of a request, by its number.
pub open spec fn request_id_view(number: nat) -> Seq<char> {
    "req_"@ + decimal(number)
}

/// The id of a request, by its number.
pub fn request_id(number: u64) -> (id: String)
    ensures
        id@ == request_id_view(number as nat),
{
    let mut id: String = "req_".to_string();
    id.append(to_decimal(number).as_str());
    id
}

/// What is sent for a request: its id, the method and the parameters.
pub open spec fn envelope_view(id: Seq<char>, method: Seq<char>, params: JsonView) -> JsonView {
    JsonView::Object(
        Map::<Seq<char>, JsonView>::empty().insert("id"@, JsonView::Str(id)).insert(
            "method"@,
            JsonView::Str(method),
        ).insert("params"@, params),
    )
}

/// What is sent for a request.
pub fn request_envelope(id: &str, method: &str, params: Json) -> (envelope: Json)
    ensures
        envelope@ == envelope_view(id@, method@, params@),
{
    let mut members: Object = Object::new();
    members.insert("id", Json::Str(id.to_string()));
    members.insert("method", Json::Str(method.to_string()));
    members.insert("params", params);
    Json::Object(members)
}

/// Whether bytes are one line: a single line feed, at the end.
pub open spec fn is_line(bytes: Seq<u8>) -> bool {
    &&& bytes.len() > 0
    &&& bytes.last() == 10u8
    &&& !bytes.drop_last().contains(10u8)
}

/// Ends the bytes of a request, or tells why there are none.
pub fn frame_request(written: Result<Vec<u8>, String>) -> (r: Result<Vec<u8>, HerdrError>)
    ensures
        match written {
            Ok(bytes) => r is Ok && r->Ok_0@ == bytes@.push(10u8),
            Err(message) => r is Err && r->Err_0@ == HerdrErrorView::Transport(
                "failed to encode request: "@ + message@,
            ),
        },
{
    match written {
        Ok(bytes) => {
            let mut line: Vec<u8> = bytes;
            line.push(10);
            Ok(line)
        },
        Err(message) => {
            let mut text: String = "failed to encode request: ".to_string();
            text.append(message.as_str());
            Err(HerdrError::Transport(text))
        },
    }
}

/// The line that is sent for a request.
pub fn encode_request(id: &str, method: &str, params: Json) -> (r: Result<Vec<u8>, HerdrError>)
    ensures
        match json_bytes(envelope_view(id@, method@, params@)) {
            Ok(bytes) => r is Ok && r->Ok_0@ == bytes.push(10u8) && is_line(r->Ok_0@),
            Err(message) => r is Err && r->Err_0@ == HerdrErrorView::Transport(
                "failed to encode request: "@ + message,
            ),
        },
{
    let written: Result<Vec<u8>, String> = encode_json(request_envelope(id, method, params));
    proof {
        if written is Ok {
            assert(written->Ok_0@.push(10u8).drop_last() =~= written->Ok_0@);
        }
    }
    frame_request(written)
}

/// The text that `{:?}` gives a string: in quotes, with escapes.
pub uninterp spec fn debug_str(text: Seq<char>) -> Seq<char>;

/// `format!` with `{:?}` of a string. What it gives is a function of the string.
#[verifier::external_body]
pub(crate) fn debug_text(text: &str) -> (r: String)
    ensures
        r@ == debug_str(text@),
{
    format!("{:?}", text)
}

/// How an optional string is shown.
pub open spec fn debug_option(text: Option<Seq<char>>) -> Seq<char> {
    match text {
        Some(t) => "Some("@ + debug_str(t) + ")"@,
        None => "None"@,
    }
}

/// What a request came to.
pub open spec fn outcome(r: Result<Json, HerdrError>) -> Result<JsonView, HerdrErrorView> {
    match r {
        Ok(value) => Ok(value@),
        Err(error) => Err(error@),
    }
}

/// A text, or another one where there is none.
pub open spec fn text_or(text: Option<Seq<char>>, other: Seq<char>) -> Seq<char> {
    match text {
        Some(t) => t,
        None => other,
    }
}

/// What a response comes to. It has to carry the id of the request. An error in it is herdr's
/// own failure; else it has to carry a result.
pub open spec fn response_outcome(value: JsonView, expected_id: Seq<char>) -> Result<
    JsonView,
    HerdrErrorView,
> {
    if value.member_text("id"@) != Some(expected_id) {
        Err(
            HerdrErrorView::Transport(
                "herdr response id mismatch: expected "@ + expected_id + ", got "@ + debug_option(
                    value.member_text("id"@),
                ),
            ),
        )
    } else {
        match (value.member("error"@), value.member("result"@)) {
            (Some(error), _) => Err(
                HerdrErrorView::Api {
                    code: text_or(error.member_text("code"@), "unknown"@),
                    message: text_or(error.member_text("message"@), "(no message)"@),
                },
            ),
            (None, Some(result)) => Ok(result),
            (None, None) => Err(
                HerdrErrorView::Transport("herdr response had neither result nor error"@),
            ),
        }
    }
}

/// What a response line comes to.
pub open spec fn line_outcome(
    parsed: Result<JsonView, Seq<char>>,
    expected_id: Seq<char>,
) -> Result<JsonView, HerdrErrorView> {
    match parsed {
        Ok(value) => response_outcome(value, expected_id),
        Err(message) => Err(
            HerdrErrorView::Transport("invalid JSON from herdr: "@ + message),
        ),
    }
}

/// A copy of an optional text, or of another one where there is none.
fn owned_or(text: Option<&str>, other: &str) -> (r: String)
    ensures
        r@ == text_or(text_option(text), other@),
{
    match text {
        Some(t) => t.to_string(),
        None => other.to_string(),
    }
}

/// The failure of a response with another id than that of the request.
fn id_mismatch(expected_id: &str, found: Option<&str>) -> (error: HerdrError)
    ensures
        error@ == HerdrErrorView::Transport(
            "herdr response id mismatch: expected "@ + expected_id@ + ", got "@ + debug_option(
                text_option(found),
            ),
        ),
{
    let mut message: String = "herdr response id mismatch: expected ".to_string();
    message.append(expected_id);
    message.append(", got ");
    let shown: String = match found {
        Some(id) => {
            let mut text: String = "Some(".to_string();
            text.append(debug_text(id).as_str());
            text.append(")");
            text
        },
        None => "None".to_string(),
    };
    message.append(shown.as_str());
    HerdrError::Transport(message)
}

/// What a response comes to.
pub fn interpret_response(value: Json, expected_id: &str) -> (r: Result<Json, HerdrError>)
    ensures
        outcome(r) == response_outcome(value@, expected_id@),
{
    match value.get_str("id") {
        Some(id) => {
            if !same(id, expected_id) {
                return Err(id_mismatch(expected_id, Some(id)));
            }
        },
        None => {
            return Err(id_mismatch(expected_id, None));
        },
    }
    if let Some(error) = value.get("error") {
        return Err(
            HerdrError::Api {
                code: owned_or(error.get_str("code"), "unknown"),
                message: owned_or(error.get_str("message"), "(no message)"),
            },
        );
    }
    let result: Option<Json> = match value {
        Json::Object(object) => object.take("result"),
        _ => None,
    };
    match result {
        Some(result) => Ok(result),
        None => Err(
            HerdrError::Transport("herdr response had neither result nor error".to_string()),
        ),
    }
}

/// What a parsed response line comes to.
pub fn interpret_line(parsed: Result<Json, String>, expected_id: &str) -> (r: Result<
    Json,
    HerdrError,
>)
    ensures
        outcome(r) == line_outcome(
            match parsed {
                Ok(value) => Ok(value@),
                Err(message) => Err(message@),
            },
            expected_id@,
        ),
{
    match parsed {
        Ok(value) => interpret_response(value, expected_id),
        Err(message) => {
            let mut text: String = "invalid JSON from herdr: ".to_string();
            text.append(message.as_str());
            Err(HerdrError::Transport(text))
        },
    }
}

/// Reads one response line.
pub fn parse_response(line: &str, expected_id: &str) -> (r: Result<Json, HerdrError>)
    ensures
        outcome(r) == line_outcome(json_parsed(line@), expected_id@),
{
    interpret_line(parse_json(line), expected_id)
}

/// What an exchange over the socket came to.
#[derive(Debug)]
pub enum Reply {
    ConnectFailed { path: String, error: String },
    WriteFailed { error: String },
    FlushFailed { error: String },
    TimedOut,
    ReadFailed { error: String },
    /// The number of bytes that were read, and the line.
    Read { bytes: usize, line: String },
}

/// What an exchange over the socket comes to. An answer counts only where something was
/// read.
pub open spec fn reply_outcome(
    reply: Reply,
    expected_id: Seq<char>,
    deadline: Deadline,
) -> Result<JsonView, HerdrErrorView> {
    match reply {
        Reply::ConnectFailed { path, error } => Err(
            HerdrErrorView::Transport("connect "@ + path@ + ": "@ + error@),
        ),
        Reply::WriteFailed { error } => Err(
            HerdrErrorView::Transport("write to herdr socket: "@ + error@),
        ),
        Reply::FlushFailed { error } => Err(
            HerdrErrorView::Transport("flush herdr socket: "@ + error@),
        ),
        Reply::TimedOut => Err(
            HerdrErrorView::Transport(
                "timed out after "@ + debug_duration(deadline.secs, deadline.nanos)
                    + " waiting for herdr"@,
            ),
        ),
        Reply::ReadFailed { error } => Err(
            HerdrErrorView::Transport("read from herdr socket: "@ + error@),
        ),
        Reply::Read { bytes, line } => if bytes == 0 {
            Err(
                HerdrErrorView::Transport(
                    "herdr socket closed before a response was received"@,
                ),
            )
        } else {
            line_outcome(json_parsed(trimmed(line@)), expected_id)
        },
    }
}

/// Reads what an exchange over the socket came to.
pub fn finish_request(reply: Reply, expected_id: &str, deadline: Deadline) -> (r: Result<
    Json,
    HerdrError,
>)
    requires
        deadline.wf(),
    ensures
        outcome(r) == reply_outcome(reply, expected_id@, deadline),
{
    let mut message: String = String::new();
    match reply {
        Reply::Read { bytes, line } => {
            if bytes != 0 {
                return parse_response(trim(line.as_str()), expected_id);
            }
            message.append("herdr socket closed before a response was received");
        },
        Reply::ConnectFailed { path, error } => {
            message.append("connect ");
            message.append(path.as_str());
            message.append(": ");
            message.append(error.as_str());
        },
        Reply::WriteFailed { error } => {
            message.append("write to herdr socket: ");
            message.append(error.as_str());
        },
        Reply::FlushFailed { error } => {
            message.append("flush herdr socket: ");
            message.append(error.as_str());
        },
        Reply::TimedOut => {
            message.append("timed out after ");
            message.append(duration_text(deadline.secs, deadline.nanos).as_str());
            message.append(" waiting for herdr");
        },
        Reply::ReadFailed { error } => {
            message.append("read from herdr socket: ");
            message.append(error.as_str());
        },
    }
    assert(reply_outcome(reply, expected_id@, deadline) =~= Err::<JsonView, HerdrErrorView>(
        HerdrErrorView::Transport(message@),
    ));
    Err(HerdrError::Transport(message))
}

/// A request that is ready to be sent: its id, its line, and how long to wait for the answer.
#[derive(Debug)]
pub struct Prepared {
    pub id: String,
    pub line: Vec<u8>,
    pub deadline: Deadline,
}

/// Prepares a request, by its number.
pub fn prepare_request(
    number: u64,
    method: &str,
    params: Json,
    setting: Option<&str>,
) -> (r: Result<Prepared, HerdrError>)
    ensures
        match json_bytes(envelope_view(request_id_view(number as nat), method@, params@)) {
            Ok(bytes) => {
                &&& r is Ok
                &&& r->Ok_0.id@ == request_id_view(number as nat)
                &&& r->Ok_0.line@ == bytes.push(10u8)
                &&& is_line(r->Ok_0.line@)
                &&& r->Ok_0.deadline.wf()
                &&& r->Ok_0.deadline.lasts(effective_millis(params@, text_option(setting)))
            },
            Err(message) => r is Err && r->Err_0@ == HerdrErrorView::Transport(
                "failed to encode request: "@ + message,
            ),
        },
{
    let deadline: Deadline = effective_timeout(&params, setting);
    let id: String = request_id(number);
    match encode_request(id.as_str(), method, params) {
        Ok(line) => Ok(Prepared { id, line, deadline }),
        Err(error) => Err(error),
    }
}

} // verus!
