//! The line classifier: an ordered list of rules, the first that matches wins.
use vstd::prelude::*;

use crate::damage::{damage_of, Damage};
use crate::event::{Event, EventModel};
use crate::status::Status;
use crate::text::{
    chars_of, eq_exec, is_ws, is_ws_exec, split_once, split_once_exec,
    starts_with, starts_with_exec, strip_prefix, strip_prefix_exec, strip_suffix,
    strip_suffix_exec, string_from_chars, trim, trim_chars,
};
use crate::ui_state::{ui_state_of, UIState};

verus! {

/// What a console line asks for.
#[derive(Debug)]
pub enum LineClass {
    /// No rule matches: the line is not for us.
    Nothing,
    /// A rule's keyword matched but the rest of the line broke its grammar.
    Malformed,
    Emit(Event),
    /// A convar report that also carries a command.
    EmitTwo(Event, Event),
    /// A status block begins, for the server of this hostname.
    StatusBlock(String),
}

/// A `LineClass` as plain values.
pub enum LineModel {
    Nothing,
    Malformed,
    Emit(EventModel),
    EmitTwo(EventModel, EventModel),
    StatusBlock(Seq<char>),
}

impl LineClass {
    pub open spec fn model(&self) -> LineModel {
        match self {
            LineClass::Nothing => LineModel::Nothing,
            LineClass::Malformed => LineModel::Malformed,
            LineClass::Emit(e) => LineModel::Emit(e.model()),
            LineClass::EmitTwo(a, b) => LineModel::EmitTwo(a.model(), b.model()),
            LineClass::StatusBlock(h) => LineModel::StatusBlock(h@),
        }
    }
}

/// The two tokens of `<from> -> <to>`: the text up to the first `->` and the
/// text up to the next one, each trimmed.
pub open spec fn ui_transition(d: Seq<char>) -> Option<(UIState, UIState)> {
    match split_once(d, "->"@) {
        None => None,
        Some((a, rest)) => {
            let b = match split_once(rest, "->"@) {
                Some((b, _)) => b,
                None => rest,
            };
            match (ui_state_of(trim(a)), ui_state_of(trim(b))) {
                (Some(x), Some(y)) => Some((x, y)),
                _ => None,
            }
        },
    }
}

pub open spec fn has_ws(s: Seq<char>) -> bool {
    exists|i: int| 0 <= i < s.len() && is_ws(#[trigger] s[i])
}

/// `"<name>" = "<value>" ...`, both non-empty once trimmed.
pub open spec fn quoted_convar(l: Seq<char>) -> Option<(Seq<char>, Seq<char>)> {
    match strip_prefix(l, "\""@) {
        None => None,
        Some(r) => match split_once(r, "\""@) {
            None => None,
            Some((name, r)) => match strip_prefix(r, " = \""@) {
                None => None,
                Some(r) => match split_once(r, "\""@) {
                    None => None,
                    Some((value, _)) => if trim(name).len() > 0 && trim(value).len() > 0 {
                        Some((trim(name), trim(value)))
                    } else {
                        None
                    },
                },
            },
        },
    }
}

/// `<name> - <value>`, both non-empty and free of white space once trimmed.
pub open spec fn dashed_convar(l: Seq<char>) -> Option<(Seq<char>, Seq<char>)> {
    match split_once(l, " - "@) {
        None => None,
        Some((name, value)) => if trim(name).len() > 0 && trim(value).len() > 0 && !has_ws(
            trim(name),
        ) && !has_ws(trim(value)) {
            Some((trim(name), trim(value)))
        } else {
            None
        },
    }
}

pub open spec fn convar_of(l: Seq<char>) -> Option<(Seq<char>, Seq<char>)> {
    match quoted_convar(l) {
        Some(p) => Some(p),
        None => dashed_convar(l),
    }
}

/// The rules after the damage rule: convar reports, then the command marker.
pub open spec fn classify_tail(l: Seq<char>) -> LineModel {
    let cmd = strip_prefix(l, "??? "@);
    match convar_of(l) {
        Some((n, v)) => match cmd {
            Some(c) => LineModel::EmitTwo(EventModel::ConVar(n, v), EventModel::Command(c)),
            None => LineModel::Emit(EventModel::ConVar(n, v)),
        },
        None => match cmd {
            Some(c) => LineModel::Emit(EventModel::Command(c)),
            None => if starts_with(l, "Damage"@) {
                LineModel::Malformed
            } else {
                LineModel::Nothing
            },
        },
    }
}

/// What a trimmed console line asks for, by the first rule that matches it.
pub open spec fn classify_trimmed(l: Seq<char>) -> LineModel {
    if l.len() == 0 {
        LineModel::Nothing
    } else {
        match strip_prefix(l, "ChangeGameUIState:"@) {
            Some(d) => match ui_transition(d) {
                Some((a, b)) => LineModel::Emit(EventModel::ChangeUIState(a, b)),
                None => LineModel::Malformed,
            },
            None => match strip_prefix(l, "Map: "@) {
                Some(m) => LineModel::Emit(EventModel::MapChange(m)),
                None => match strip_suffix(l, " connected."@) {
                    Some(p) => LineModel::Emit(EventModel::PlayerConnected(p)),
                    None => if l == "EVERYONE CAN BUY!"@ {
                        LineModel::Emit(EventModel::EnterBuyPeriod)
                    } else if l == "Not connected to server"@ {
                        LineModel::Emit(EventModel::Status(None))
                    } else {
                        match strip_prefix(l, "hostname: "@) {
                            Some(h) => LineModel::StatusBlock(h),
                            None => match damage_of(l) {
                                Some(d) => LineModel::Emit(EventModel::Damage(d)),
                                None => classify_tail(l),
                            },
                        }
                    },
                },
            },
        }
    }
}

fn ui_transition_exec(d: &[char]) -> (r: Option<(UIState, UIState)>)
    ensures
        r == ui_transition(d@),
{
    let arrow = chars_of("->");
    let (a, rest) = match split_once_exec(d, arrow.as_slice()) {
        Some(p) => p,
        None => return None,
    };
    let b = match split_once_exec(rest.as_slice(), arrow.as_slice()) {
        Some((b, _)) => b,
        None => rest,
    };
    match (
        UIState::from_chars(trim_chars(a.as_slice()).as_slice()),
        UIState::from_chars(trim_chars(b.as_slice()).as_slice()),
    ) {
        (Some(x), Some(y)) => Some((x, y)),
        _ => None,
    }
}

fn has_ws_exec(s: &[char]) -> (r: bool)
    ensures
        r == has_ws(s@),
{
    let n = s.len();
    let mut i: usize = 0;
    while i < n
        invariant
            n == s@.len(),
            i <= n,
            forall|k: int| 0 <= k < i ==> !is_ws(#[trigger] s@[k]),
        decreases n - i,
    {
        if is_ws_exec(s[i]) {
            return true;
        }
        i = i + 1;
    }
    false
}

fn quoted_convar_exec(l: &[char]) -> (r: Option<(Vec<char>, Vec<char>)>)
    ensures
        match r {
            Some((n, v)) => quoted_convar(l@) == Some((n@, v@)),
            None => quoted_convar(l@) is None,
        },
{
    let quote = chars_of("\"");
    let r = match strip_prefix_exec(l, quote.as_slice()) {
        Some(r) => r,
        None => return None,
    };
    let (name, r) = match split_once_exec(r.as_slice(), quote.as_slice()) {
        Some(p) => p,
        None => return None,
    };
    let r = match strip_prefix_exec(r.as_slice(), chars_of(" = \"").as_slice()) {
        Some(r) => r,
        None => return None,
    };
    let (value, _) = match split_once_exec(r.as_slice(), quote.as_slice()) {
        Some(p) => p,
        None => return None,
    };
    let name = trim_chars(name.as_slice());
    let value = trim_chars(value.as_slice());
    if name.len() > 0 && value.len() > 0 {
        Some((name, value))
    } else {
        None
    }
}

fn dashed_convar_exec(l: &[char]) -> (r: Option<(Vec<char>, Vec<char>)>)
    ensures
        match r {
            Some((n, v)) => dashed_convar(l@) == Some((n@, v@)),
            None => dashed_convar(l@) is None,
        },
{
    let (name, value) = match split_once_exec(l, chars_of(" - ").as_slice()) {
        Some(p) => p,
        None => return None,
    };
    let name = trim_chars(name.as_slice());
    let value = trim_chars(value.as_slice());
    if name.len() > 0 && value.len() > 0 && !has_ws_exec(name.as_slice()) && !has_ws_exec(
        value.as_slice(),
    ) {
        Some((name, value))
    } else {
        None
    }
}

fn classify_tail_exec(l: &[char]) -> (r: LineClass)
    ensures
        r.model() == classify_tail(l@),
{
    let cmd = strip_prefix_exec(l, chars_of("??? ").as_slice());
    let convar = match quoted_convar_exec(l) {
        Some(p) => Some(p),
        None => dashed_convar_exec(l),
    };
    match convar {
        Some((n, v)) => {
            let e = Event::ConVar(string_from_chars(n), string_from_chars(v));
            match cmd {
                Some(c) => LineClass::EmitTwo(e, Event::Command(string_from_chars(c))),
                None => LineClass::Emit(e),
            }
        },
        None => match cmd {
            Some(c) => LineClass::Emit(Event::Command(string_from_chars(c))),
            None => if starts_with_exec(l, chars_of("Damage").as_slice()) {
                LineClass::Malformed
            } else {
                LineClass::Nothing
            },
        },
    }
}

fn classify_trimmed_exec(l: &[char]) -> (r: LineClass)
    ensures
        r.model() == classify_trimmed(l@),
{
    if l.len() == 0 {
        return LineClass::Nothing;
    }
    if let Some(d) = strip_prefix_exec(l, chars_of("ChangeGameUIState:").as_slice()) {
        return match ui_transition_exec(d.as_slice()) {
            Some((a, b)) => LineClass::Emit(Event::ChangeUIState(a, b)),
            None => LineClass::Malformed,
        };
    }
    if let Some(m) = strip_prefix_exec(l, chars_of("Map: ").as_slice()) {
        return LineClass::Emit(Event::MapChange(string_from_chars(m)));
    }
    if let Some(p) = strip_suffix_exec(l, chars_of(" connected.").as_slice()) {
        return LineClass::Emit(Event::PlayerConnected(string_from_chars(p)));
    }
    if eq_exec(l, chars_of("EVERYONE CAN BUY!").as_slice()) {
        return LineClass::Emit(Event::EnterBuyPeriod);
    }
    if eq_exec(l, chars_of("Not connected to server").as_slice()) {
        return LineClass::Emit(Event::Status(Status::NotConnected));
    }
    if let Some(h) = strip_prefix_exec(l, chars_of("hostname: ").as_slice()) {
        return LineClass::StatusBlock(string_from_chars(h));
    }
    match Damage::from_chars(l) {
        Some(d) => LineClass::Emit(Event::Damage(d)),
        None => classify_tail_exec(l),
    }
}

/// Classifies one console line, trimmed first.
pub fn classify_line(line: &str) -> (r: LineClass)
    ensures
        r.model() == classify_trimmed(trim(line@)),
{
    let l = trim_chars(chars_of(line).as_slice());
    classify_trimmed_exec(l.as_slice())
}

} // verus!
