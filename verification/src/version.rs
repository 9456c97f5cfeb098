//! Whether the running herdr is the one that the contract targets.

use vstd::prelude::*;

use crate::contract::optional_text;
use crate::herdr::{outcome, HerdrError, HerdrErrorView};
use crate::json::{Json, JsonView};
use crate::text::{fields, lemma_fields_nonempty, same, split, texts};

verus! {

/// A version up to its minor number: its first two fields.
pub open spec fn minor_of(version: Seq<char>) -> Seq<char> {
    let parts = fields(version, '.');
    if parts.len() < 2 {
        parts[0]
    } else {
        parts[0] + "."@ + parts[1]
    }
}

/// A version up to its minor number.
pub fn minor(version: &str) -> (r: String)
    ensures
        r@ == minor_of(version@),
{
    let parts: Vec<String> = split(version, '.');
    proof {
        lemma_fields_nonempty(version@, '.');
        assert(texts(parts@)[0] == parts[0]@);
    }
    let mut r: String = parts[0].clone();
    if parts.len() >= 2 {
        assert(texts(parts@)[1] == parts[1]@);
        r.append(".");
        r.append(parts[1].as_str());
    }
    r
}

/// The warning that a daemon's answer to a ping gives rise to: the daemon tells a version, and
/// its minor version is not that of the contract.
pub open spec fn skew_warning(pong: JsonView, target: Seq<char>) -> Option<Seq<char>> {
    match pong.member_text("version"@) {
        Some(daemon) => if daemon.len() > 0 && minor_of(daemon) != minor_of(target) {
            Some(
                "herdr daemon version "@ + daemon + " differs from contract target "@ + target
                    + "; tool schemas may be stale (run `cargo test -- --ignored` for the drift check)"@,
            )
        } else {
            None
        },
        None => None,
    }
}

/// The warning that a daemon's answer to a ping gives rise to.
pub fn version_skew(pong: &Json, target: &str) -> (warning: Option<String>)
    ensures
        optional_text(warning) == skew_warning(pong@, target@),
{
    match pong.get_str("version") {
        Some(daemon) => {
            if !daemon.is_empty() && !same(minor(daemon).as_str(), minor(target).as_str()) {
                let mut warning: String = "herdr daemon version ".to_string();
                warning.append(daemon);
                warning.append(" differs from contract target ");
                warning.append(target);
                warning.append(
                    "; tool schemas may be stale (run `cargo test -- --ignored` for the drift check)",
                );
                Some(warning)
            } else {
                None
            }
        },
        None => None,
    }
}

/// The warning that a ping gives rise to: that of the answer, or that there was none.
pub open spec fn ping_warning_view(
    r: Result<JsonView, HerdrErrorView>,
    target: Seq<char>,
) -> Option<Seq<char>> {
    match r {
        Ok(pong) => skew_warning(pong, target),
        Err(error) => Some(
            "could not verify herdr version (is it running?): "@ + error.line(),
        ),
    }
}

/// The warning that a ping gives rise to.
pub fn ping_warning(r: Result<Json, HerdrError>, target: &str) -> (warning: Option<String>)
    ensures
        optional_text(warning) == ping_warning_view(outcome(r), target@),
{
    match r {
        Ok(pong) => version_skew(&pong, target),
        Err(error) => {
            let mut warning: String =
                "could not verify herdr version (is it running?): ".to_string();
            warning.append(error.text().as_str());
            Some(warning)
        },
    }
}

} // verus!
