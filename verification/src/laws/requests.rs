//! What holds of requests to herdr, from the socket and the line that is sent to what the answer
//! comes to.

use vstd::prelude::*;

use crate::herdr::{
    bytes_of, config_dir_for, config_dir_under, default_millis, effective_millis, envelope_view,
    is_line, line_outcome, path_join, reply_outcome, request_id_view, response_outcome,
    session_socket_for, shown, socket_places, Candidate, Deadline, HerdrErrorView, Reply,
};
use crate::json::JsonView;
use crate::laws::texts::{law_written_numbers_are_read_back, lemma_fields_concat, lemma_single_field};
use crate::laws::{
    law_default_socket_comes_last, lemma_first_byte, lemma_path_bytes,
};
use crate::text::{decimal, fields, trimmed, unsigned};
use crate::version::{minor_of, ping_warning_view, skew_warning};

verus! {

/// The text of the failure of an answer with another id.
pub open spec fn other_id(expected: Seq<char>, got: Seq<char>) -> HerdrErrorView {
    HerdrErrorView::Transport(
        "herdr response id mismatch: expected "@ + expected + ", got "@ + got,
    )
}

/// The text of a member of an object that is a string, or another text.
pub open spec fn string_or(
    value: JsonView,
    key: Seq<char>,
    other: Seq<char>,
) -> Seq<char> {
    match value {
        JsonView::Object(members) => if members.dom().contains(key) && members[key] is Str {
            members[key]->Str_0
        } else {
            other
        },
        _ => other,
    }
}

/// What a response comes to that is an object with the id of the request: its error as herdr's
/// own failure, else its result as it is, else a failure of the protocol.
pub proof fn law_responses_with_the_id_count(members: Map<Seq<char>, JsonView>, id: Seq<char>)
    requires
        members.dom().contains("id"@),
        members["id"@] == JsonView::Str(id),
    ensures
        ({
            let outcome = response_outcome(JsonView::Object(members), id);
            if members.dom().contains("error"@) {
                outcome == Err::<JsonView, HerdrErrorView>(
                    HerdrErrorView::Api {
                        code: string_or(members["error"@], "code"@, "unknown"@),
                        message: string_or(members["error"@], "message"@, "(no message)"@),
                    },
                )
            } else if members.dom().contains("result"@) {
                outcome == Ok::<JsonView, HerdrErrorView>(members["result"@])
            } else {
                outcome == Err::<JsonView, HerdrErrorView>(
                    HerdrErrorView::Transport("herdr response had neither result nor error"@),
                )
            }
        }),
{
}

/// A response with another id, or with none that is a string, is a failure of the protocol that
/// shows the id, whatever else it holds.
pub proof fn law_responses_with_another_id_fail(value: JsonView, id: Seq<char>, other: Seq<char>)
    requires
        other != id,
    ensures
        value.member("id"@) == Some(JsonView::Str(other)) ==> response_outcome(value, id) == Err::<
            JsonView,
            HerdrErrorView,
        >(other_id(id, "Some("@ + crate::herdr::debug_str(other) + ")"@)),
        !(value matches JsonView::Object(members) && members.dom().contains("id"@)
            && members["id"@] is Str) ==> response_outcome(value, id) == Err::<
            JsonView,
            HerdrErrorView,
        >(other_id(id, "None"@)),
{
}

/// Whatever was read counts: where at least one byte was read, what the exchange comes to is what
/// the line comes to without the white space around it, however long it is, and however long was
/// waited.
pub proof fn law_whatever_was_read_counts(
    bytes: usize,
    line: String,
    members: Map<Seq<char>, JsonView>,
    id: Seq<char>,
    deadline: Deadline,
)
    requires
        bytes > 0,
    ensures
        crate::json::json_parsed(trimmed(line@)) == Ok::<JsonView, Seq<char>>(
            JsonView::Object(members),
        ) && members.dom().contains("id"@) && members["id"@] == JsonView::Str(id)
            && !members.dom().contains("error"@) && members.dom().contains("result"@)
            ==> reply_outcome(Reply::Read { bytes, line }, id, deadline) == Ok::<
            JsonView,
            HerdrErrorView,
        >(members["result"@]),
        crate::json::json_parsed(trimmed(line@)) matches Ok(value) ==> reply_outcome(
            Reply::Read { bytes, line },
            id,
            deadline,
        ) == response_outcome(value, id),
        crate::json::json_parsed(trimmed(line@)) matches Err(message) ==> reply_outcome(
            Reply::Read { bytes, line },
            id,
            deadline,
        ) == Err::<JsonView, HerdrErrorView>(
            HerdrErrorView::Transport("invalid JSON from herdr: "@ + message),
        ),
{
}

/// What was read does not depend on how many bytes it was, as long as there were any.
pub proof fn law_number_of_bytes_does_not_matter(
    a: usize,
    b: usize,
    line: String,
    id: Seq<char>,
    deadline: Deadline,
    other: Deadline,
)
    requires
        a > 0,
        b > 0,
    ensures
        reply_outcome(Reply::Read { bytes: a, line }, id, deadline) == reply_outcome(
            Reply::Read { bytes: b, line },
            id,
            other,
        ),
{
}

/// A line comes to what its value comes to, and one that is no JSON to a failure with the reason.
pub proof fn law_lines_are_read(parsed: Result<JsonView, Seq<char>>, id: Seq<char>)
    ensures
        parsed matches Ok(value) ==> line_outcome(parsed, id) == response_outcome(value, id),
        parsed matches Err(message) ==> line_outcome(parsed, id) == Err::<JsonView, HerdrErrorView>(
            HerdrErrorView::Transport("invalid JSON from herdr: "@ + message),
        ),
{
}

/// An exchange that failed is a failure of the transport, which tells the step and the reason as
/// it was given.
pub proof fn law_failed_exchanges_tell_why(
    path: String,
    error: String,
    line: String,
    id: Seq<char>,
    deadline: Deadline,
)
    ensures
        reply_outcome(Reply::ConnectFailed { path, error }, id, deadline) == Err::<
            JsonView,
            HerdrErrorView,
        >(HerdrErrorView::Transport("connect "@ + path@ + ": "@ + error@)),
        reply_outcome(Reply::WriteFailed { error }, id, deadline) == Err::<JsonView, HerdrErrorView>(
            HerdrErrorView::Transport("write to herdr socket: "@ + error@),
        ),
        reply_outcome(Reply::FlushFailed { error }, id, deadline) == Err::<JsonView, HerdrErrorView>(
            HerdrErrorView::Transport("flush herdr socket: "@ + error@),
        ),
        reply_outcome(Reply::ReadFailed { error }, id, deadline) == Err::<JsonView, HerdrErrorView>(
            HerdrErrorView::Transport("read from herdr socket: "@ + error@),
        ),
        reply_outcome(Reply::TimedOut, id, deadline) == Err::<JsonView, HerdrErrorView>(
            HerdrErrorView::Transport(
                "timed out after "@ + crate::herdr::debug_duration(deadline.secs, deadline.nanos)
                    + " waiting for herdr"@,
            ),
        ),
        reply_outcome(Reply::Read { bytes: 0, line }, id, deadline) == Err::<
            JsonView,
            HerdrErrorView,
        >(HerdrErrorView::Transport("herdr socket closed before a response was received"@)),
{
}

/// A failure of the transport is told by its message, one of herdr's own by its code and message.
pub proof fn law_failures_are_told_in_a_line(code: Seq<char>, message: Seq<char>)
    ensures
        HerdrErrorView::Transport(message).line() == message,
        (HerdrErrorView::Api { code, message }).line() == code + ": "@ + message,
{
}

/// A request that says how long it takes is waited for five seconds longer, and one that does not
/// say so in a number is waited for as the setting says, else for five minutes.
pub proof fn law_waits_follow_the_request_then_the_setting(
    members: Map<Seq<char>, JsonView>,
    setting: Option<Seq<char>>,
    millis: u64,
)
    ensures
        ({
            let says = members.dom().contains("timeout_ms"@) && members["timeout_ms"@] is Int && 0
                <= members["timeout_ms"@]->Int_0 <= u64::MAX;
            let wait = effective_millis(JsonView::Object(members), setting);
            if says {
                wait == members["timeout_ms"@]->Int_0 + 5_000
            } else {
                wait == match setting {
                    Some(text) => match unsigned(text) {
                        Some(n) => n as int,
                        None => 300_000,
                    },
                    None => 300_000,
                }
            }
        }),
        default_millis(Some(decimal(millis as nat))) == millis,
        setting matches Some(text) ==> (unsigned(text) is None ==> default_millis(setting)
            == 300_000),
        default_millis(None) == 300_000,
{
    law_written_numbers_are_read_back(millis);
}

/// Parameters that are no object say nothing of how long they take.
pub proof fn law_only_objects_say_how_long_they_take(
    params: JsonView,
    setting: Option<Seq<char>>,
)
    requires
        !(params is Object),
    ensures
        effective_millis(params, setting) == default_millis(setting),
{
}

/// A length of time in milliseconds has its thousands in the seconds, and the rest in the
/// nanoseconds.
pub proof fn law_lengths_of_time_are_exact(deadline: Deadline, millis: int)
    requires
        deadline.wf(),
        deadline.lasts(millis),
    ensures
        deadline.secs == millis / 1_000,
        deadline.nanos == (millis % 1_000) * 1_000_000,
        deadline.nanos < 1_000_000_000,
{
}

/// What is sent for a request is an object with the three members `id`, `method` and `params`,
/// each as it was given, and no others.
pub proof fn law_requests_carry_what_was_asked(
    id: Seq<char>,
    method: Seq<char>,
    params: JsonView,
    key: Seq<char>,
)
    ensures
        ({
            let envelope = envelope_view(id, method, params);
            &&& envelope.member("id"@) == Some(JsonView::Str(id))
            &&& envelope.member("method"@) == Some(JsonView::Str(method))
            &&& envelope.member("params"@) == Some(params)
            &&& envelope.member(key) is Some <==> key == "id"@ || key == "method"@ || key
                == "params"@
        }),
{
    reveal_strlit("id");
    reveal_strlit("method");
    reveal_strlit("params");
    assert("id"@.len() == 2);
    assert("method"@.len() == 6 && "method"@[0] == 'm');
    assert("params"@.len() == 6 && "params"@[0] == 'p');
}

/// A line has one line feed, which ends it.
pub proof fn law_lines_end_where_the_line_feed_is(bytes: Seq<u8>)
    ensures
        is_line(bytes) <==> bytes.len() > 0 && forall|i: int|
            0 <= i < bytes.len() ==> (#[trigger] bytes[i] == 10u8 <==> i == bytes.len() - 1),
{
    if bytes.len() > 0 {
        let start = bytes.drop_last();
        if is_line(bytes) {
            assert forall|i: int| 0 <= i < bytes.len() implies (#[trigger] bytes[i] == 10u8 <==> i
                == bytes.len() - 1) by {
                if i < start.len() {
                    assert(start[i] == bytes[i]);
                    assert(start.contains(start[i]));
                }
            }
        }
        if forall|i: int|
            0 <= i < bytes.len() ==> (#[trigger] bytes[i] == 10u8 <==> i == bytes.len() - 1) {
            assert(bytes[bytes.len() - 1] == 10u8);
            if start.contains(10u8) {
                let i = start.index_of(10u8);
                assert(bytes[i] == 10u8);
            }
        }
    }
}

/// The id of a request is its number in decimal behind `req_`, so that the number can be read
/// from it.
pub proof fn law_request_ids_tell_their_number(number: u64)
    ensures
        request_id_view(number as nat).len() > 4,
        request_id_view(number as nat).take(4) == seq!['r', 'e', 'q', '_'],
        unsigned(request_id_view(number as nat).skip(4)) == Some(number),
{
    reveal_strlit("req_");
    let id = request_id_view(number as nat);
    law_written_numbers_are_read_back(number);
    assert(id.skip(4) =~= decimal(number as nat));
    assert(id.take(4) =~= seq!['r', 'e', 'q', '_']);
    crate::laws::texts::law_decimal_stands_for_its_number(number as nat);
}

/// A part goes behind a path with one `/` between them, unless the path is empty or ends in one;
/// a part that starts with `/` takes the place of the path.
pub proof fn law_parts_go_behind_their_path(base: Seq<u8>, part: Seq<u8>)
    ensures
        part.len() > 0 && part[0] == 47u8 ==> path_join(base, part) == part,
        !(part.len() > 0 && part[0] == 47u8) && base.len() > 0 && base[base.len() - 1] != 47u8
            ==> path_join(base, part) == base + seq![47u8] + part,
        !(part.len() > 0 && part[0] == 47u8) && (base.len() == 0 || base[base.len() - 1] == 47u8)
            ==> path_join(base, part) == base + part,
{
    assert(base.push(47u8) + part =~= base + seq![47u8] + part);
}

/// The bytes of a text are its UTF-8 encoding.
pub proof fn law_bytes_are_those_of_utf8(text: Seq<char>)
    ensures
        vstd::utf8::decode_utf8(bytes_of(text)) == text,
        vstd::utf8::valid_utf8(bytes_of(text)),
{
    vstd::utf8::encode_utf8_decode_utf8(text);
    vstd::utf8::encode_utf8_valid_utf8(text);
}

/// The socket of a session in a home directory.
pub open spec fn session_place(home: Seq<u8>, session: Seq<char>) -> Seq<u8> {
    path_join(
        path_join(home, bytes_of(".config/herdr/sessions/"@) + bytes_of(session)),
        bytes_of("herdr.sock"@),
    )
}

/// The default socket in a home directory.
pub open spec fn default_place(home: Seq<u8>) -> Seq<u8> {
    path_join(home, bytes_of(".config/herdr/herdr.sock"@))
}

/// herdr's files are in `.config/herdr` in the home directory, and without one there is a failure
/// that says so. A session has to have a name.
pub proof fn law_homes_hold_the_files(home: Seq<u8>, session: Seq<char>)
    ensures
        config_dir_for(Some(home)) == Ok::<Seq<u8>, HerdrErrorView>(
            path_join(home, bytes_of(".config/herdr"@)),
        ),
        config_dir_for(None) == Err::<Seq<u8>, HerdrErrorView>(
            HerdrErrorView::Transport("HOME is not set; cannot locate herdr socket"@),
        ),
        session.len() == 0 ==> session_socket_for(session, Some(home)) == Err::<
            Seq<u8>,
            HerdrErrorView,
        >(HerdrErrorView::Transport("HERDR_SESSION must not be empty"@)),
        session.len() == 0 ==> session_socket_for(session, None) == Err::<Seq<u8>, HerdrErrorView>(
            HerdrErrorView::Transport("HERDR_SESSION must not be empty"@),
        ),
        session.len() > 0 ==> session_socket_for(session, None) == Err::<Seq<u8>, HerdrErrorView>(
            HerdrErrorView::Transport("HOME is not set; cannot locate herdr socket"@),
        ),
        session.len() > 0 && session[0] != '/' ==> session_socket_for(session, Some(home)) == Ok::<
            Seq<u8>,
            HerdrErrorView,
        >(session_place(home, session)),
        session.len() > 0 && session[0] == '/' ==> session_socket_for(session, Some(home)) == Ok::<
            Seq<u8>,
            HerdrErrorView,
        >(path_join(bytes_of(session), bytes_of("herdr.sock"@))),
{
    lemma_path_bytes();
    reveal_strlit(".config/herdr");
    vstd::utf8::is_ascii_chars_encode_utf8(".config/herdr"@);
    assert(bytes_of(".config/herdr"@) =~= bytes_of(".config"@) + seq![47u8] + bytes_of("herdr"@));
    assert(config_dir_under(home) =~= path_join(home, bytes_of(".config/herdr"@)));
    if session.len() > 0 && session[0] != '/' {
        lemma_first_byte(session);
        assert(path_join(
            path_join(config_dir_under(home), bytes_of("sessions"@)),
            bytes_of(session),
        ) =~= path_join(home, bytes_of(".config/herdr/sessions/"@) + bytes_of(session)));
    }
    if session.len() > 0 && session[0] == '/' {
        lemma_slash(session);
    }
}

proof fn lemma_slash(text: Seq<char>)
    requires
        text.len() > 0,
        text[0] == '/',
    ensures
        bytes_of(text).len() > 0,
        bytes_of(text)[0] == 47u8,
{
    assert(('/' as u32) == 47);
    assert((47u32 & 0x7F) as u8 == 47u8) by (bit_vector);
    assert(vstd::utf8::encode_scalar('/' as u32)[0] == 47u8);
    assert(bytes_of(text)[0] == vstd::utf8::encode_scalar(text[0] as u32)[0]);
}

/// The search is complete: with a home directory it goes through the path that is given, the
/// socket of the session that is given, and the default one, and through no others.
pub proof fn law_search_is_complete(
    explicit: Seq<u8>,
    session: Seq<char>,
    home: Seq<u8>,
)
    requires
        session.len() > 0,
        session[0] != '/',
    ensures
        socket_places(Some(explicit), Some(session), Some(home)) == Ok::<
            Seq<Seq<u8>>,
            HerdrErrorView,
        >(seq![explicit, session_place(home, session), default_place(home)]),
        socket_places(Some(explicit), None, Some(home)) == Ok::<Seq<Seq<u8>>, HerdrErrorView>(
            seq![explicit, default_place(home)],
        ),
        socket_places(None, Some(session), Some(home)) == Ok::<Seq<Seq<u8>>, HerdrErrorView>(
            seq![session_place(home, session), default_place(home)],
        ),
        socket_places(None, None, Some(home)) == Ok::<Seq<Seq<u8>>, HerdrErrorView>(
            seq![default_place(home)],
        ),
{
    law_homes_hold_the_files(home, session);
    law_default_socket_comes_last(None, None, home);
    assert(socket_places(Some(explicit), Some(session), Some(home))->Ok_0 =~= seq![
        explicit,
        session_place(home, session),
        default_place(home),
    ]);
    assert(socket_places(Some(explicit), None, Some(home))->Ok_0 =~= seq![
        explicit,
        default_place(home),
    ]);
    assert(socket_places(None, Some(session), Some(home))->Ok_0 =~= seq![
        session_place(home, session),
        default_place(home),
    ]);
}

/// What cannot be formed is left out behind a path that is given, and is a failure without one.
pub proof fn law_search_goes_on_without_what_is_missing(
    explicit: Seq<u8>,
    session: Option<Seq<char>>,
    home: Seq<u8>,
)
    ensures
        socket_places(Some(explicit), session, None) == Ok::<Seq<Seq<u8>>, HerdrErrorView>(
            seq![explicit],
        ),
        socket_places(Some(explicit), Some(Seq::empty()), Some(home)) == Ok::<
            Seq<Seq<u8>>,
            HerdrErrorView,
        >(seq![explicit, default_place(home)]),
        socket_places(None, Some(Seq::empty()), Some(home)) == Err::<Seq<Seq<u8>>, HerdrErrorView>(
            HerdrErrorView::Transport("HERDR_SESSION must not be empty"@),
        ),
        !(session matches Some(name) && name.len() == 0) ==> socket_places(None, session, None)
            == Err::<Seq<Seq<u8>>, HerdrErrorView>(
            HerdrErrorView::Transport("HOME is not set; cannot locate herdr socket"@),
        ),
{
    law_default_socket_comes_last(None, None, home);
    assert(socket_places(Some(explicit), session, None)->Ok_0 =~= seq![explicit]);
    assert(socket_places(Some(explicit), Some(Seq::empty()), Some(home))->Ok_0 =~= seq![
        explicit,
        default_place(home),
    ]);
}

/// Candidates are shown one by one, in order.
pub proof fn law_candidates_are_shown_in_order(candidates: Seq<Candidate>, i: int)
    requires
        0 <= i < candidates.len(),
    ensures
        shown(candidates).len() == candidates.len(),
        shown(candidates)[i] == candidates[i].shown@,
{
}

/// The minor version is what stands before the second `.`.
pub proof fn law_minor_versions_end_at_the_second_dot(
    major: Seq<char>,
    minor: Seq<char>,
    rest: Seq<char>,
)
    requires
        !major.contains('.'),
        !minor.contains('.'),
    ensures
        minor_of(major) == major,
        minor_of(major.push('.') + minor) == major.push('.') + minor,
        minor_of(major.push('.') + (minor.push('.') + rest)) == major.push('.') + minor,
{
    reveal_strlit(".");
    lemma_single_field(major, '.');
    lemma_single_field(minor, '.');
    lemma_fields_concat(major, minor, '.');
    lemma_fields_concat(minor, rest, '.');
    lemma_fields_concat(major, minor.push('.') + rest, '.');
    crate::text::lemma_fields_nonempty(rest, '.');
    assert(fields(major.push('.') + (minor.push('.') + rest), '.') =~= seq![major, minor] + fields(
        rest,
        '.',
    ));
    assert(fields(major.push('.') + minor, '.') =~= seq![major, minor]);
    assert(major + "."@ + minor =~= major.push('.') + minor);
}

/// There is a warning if and only if the daemon tells a version that is not empty and whose minor
/// version is not that of the contract. It names both.
pub proof fn law_other_minor_versions_are_warned_of(
    members: Map<Seq<char>, JsonView>,
    target: Seq<char>,
)
    ensures
        ({
            let pong = JsonView::Object(members);
            let told = members.dom().contains("version"@) && members["version"@] is Str;
            let daemon = members["version"@]->Str_0;
            &&& skew_warning(pong, target) is Some <==> told && daemon.len() > 0 && minor_of(daemon)
                != minor_of(target)
            &&& skew_warning(pong, target) matches Some(warning) ==> warning
                == "herdr daemon version "@ + daemon + " differs from contract target "@ + target
                + "; tool schemas may be stale (run `cargo test -- --ignored` for the drift check)"@
            &&& ping_warning_view(Ok(pong), target) == skew_warning(pong, target)
        }),
{
}

/// A ping without an answer gives a warning that tells why.
pub proof fn law_unanswered_pings_are_warned_of(error: HerdrErrorView, target: Seq<char>)
    ensures
        ping_warning_view(Err(error), target) == Some(
            "could not verify herdr version (is it running?): "@ + match error {
                HerdrErrorView::Transport(message) => message,
                HerdrErrorView::Api { code, message } => code + ": "@ + message,
            },
        ),
{
}

/// A pong that is no object tells no version.
pub proof fn law_only_objects_tell_a_version(pong: JsonView, target: Seq<char>)
    requires
        !(pong is Object),
    ensures
        skew_warning(pong, target) is None,
        ping_warning_view(Ok(pong), target) is None,
{
}

} // verus!
