//! The console's commands: splitting a line into words, decoding the words
//! into a [`Command`], and deciding which request, if any, goes to the driver.

use crate::numeral::{numeral_value, parse_numeral};
use crate::model::NetworkModel;
use crate::state::NetworkState;
use vstd::prelude::*;

verus! {

/// The largest `u8`.
pub const U8_MAX: u64 = 0xff;

/// The largest `u32`.
pub const U32_MAX: u64 = 0xffff_ffff;

/// The largest `u64`.
pub const U64_MAX: u64 = 0xffff_ffff_ffff_ffff;

/// The words of a line, as `str::split_whitespace` gives them.
pub uninterp spec fn words_of(s: Seq<char>) -> Seq<Seq<char>>;

/// Relies on `str::split_whitespace`: the words of `line`, separated by
/// whitespace, in order; they depend on the characters of the line alone.
#[verifier::external_body]
fn split_words(line: &str) -> (r: Vec<String>)
    ensures
        r@.map_values(|w: String| w@) == words_of(line@),
{
    line.split_whitespace().map(String::from).collect()
}

/// The commands that take arguments, for the messages on malformed ones.
#[derive(Clone, Copy, Debug, PartialEq, Eq, Structural)]
pub enum Form {
    AddNode,
    RemoveNode,
    SetValue,
    TestNetwork,
    TestNode,
    HealNetwork,
    HealNode,
}

/// A decoded console line.
#[derive(Debug)]
pub enum Command {
    /// A line with no words.
    Blank,
    /// Echo the words of the line.
    Args,
    Exit,
    Controllers,
    ControllersDebug,
    Nodes,
    NodesDebug,
    /// List the values: every genre when `all` holds, else user-facing ones.
    Values { all: bool },
    ValuesDebug,
    WriteConfig,
    AddNode { home_id: u32, secure: bool },
    RemoveNode { home_id: u32 },
    SetValue { home_id: u32, id: u64, value: String },
    HealNetwork { home_id: u32 },
    HealNode { home_id: u32, node_id: u8 },
    TestNetwork { home_id: u32, count: u32 },
    TestNode { home_id: u32, node_id: u8, count: u32 },
    /// The command was given too few or too many arguments.
    WrongArity(Form),
    /// An argument that must be a number is not one.
    BadNumber(Form),
    /// The first word names no command.
    Unrecognized,
}

/// A base-16 numeral that fits in `max`.
pub open spec fn hex(s: Seq<char>, max: u64) -> Option<nat> {
    numeral_value(s, 16, max as nat)
}

/// A base-10 numeral that fits in `max`.
pub open spec fn dec(s: Seq<char>, max: u64) -> Option<nat> {
    numeral_value(s, 10, max as nat)
}

/// `c` is the command that the words `ts` spell.
pub open spec fn describes(ts: Seq<Seq<char>>, c: Command) -> bool {
    if ts.len() == 0 {
        c is Blank
    } else {
        let w = ts[0];
        let n = ts.len();
        if w == "args"@ {
            c is Args
        } else if w == "exit"@ || w == "q"@ || w == "quit"@ {
            c is Exit
        } else if w == "add-node"@ {
            if n < 2 || n > 3 {
                c == Command::WrongArity(Form::AddNode)
            } else {
                match hex(ts[1], U32_MAX) {
                    Some(h) => c == Command::AddNode {
                        home_id: h as u32,
                        secure: n == 3 && ts[2] == "secure"@,
                    },
                    None => c == Command::BadNumber(Form::AddNode),
                }
            }
        } else if w == "controllers"@ {
            c is Controllers
        } else if w == "controllers_dbg"@ {
            c is ControllersDebug
        } else if w == "nodes"@ {
            c is Nodes
        } else if w == "nodes_dbg"@ {
            c is NodesDebug
        } else if w == "remove-node"@ {
            if n != 2 {
                c == Command::WrongArity(Form::RemoveNode)
            } else {
                match hex(ts[1], U32_MAX) {
                    Some(h) => c == Command::RemoveNode { home_id: h as u32 },
                    None => c == Command::BadNumber(Form::RemoveNode),
                }
            }
        } else if w == "write_config"@ {
            c is WriteConfig
        } else if w == "set"@ {
            if n != 4 {
                c == Command::WrongArity(Form::SetValue)
            } else {
                match (hex(ts[1], U32_MAX), hex(ts[2], U64_MAX)) {
                    (Some(h), Some(i)) => c matches Command::SetValue { home_id, id, value }
                        && home_id == h && id == i && value@ == ts[3],
                    _ => c == Command::BadNumber(Form::SetValue),
                }
            }
        } else if w == "test-network"@ {
            if n != 3 {
                c == Command::WrongArity(Form::TestNetwork)
            } else {
                match (hex(ts[1], U32_MAX), dec(ts[2], U32_MAX)) {
                    (Some(h), Some(k)) => c == Command::TestNetwork { home_id: h as u32, count: k as u32 },
                    _ => c == Command::BadNumber(Form::TestNetwork),
                }
            }
        } else if w == "test-node"@ {
            if n != 4 {
                c == Command::WrongArity(Form::TestNode)
            } else {
                match (hex(ts[1], U32_MAX), hex(ts[2], U8_MAX), dec(ts[3], U32_MAX)) {
                    (Some(h), Some(d), Some(k)) => c == Command::TestNode {
                        home_id: h as u32,
                        node_id: d as u8,
                        count: k as u32,
                    },
                    _ => c == Command::BadNumber(Form::TestNode),
                }
            }
        } else if w == "heal-network"@ {
            if n != 2 {
                c == Command::WrongArity(Form::HealNetwork)
            } else {
                match hex(ts[1], U32_MAX) {
                    Some(h) => c == Command::HealNetwork { home_id: h as u32 },
                    None => c == Command::BadNumber(Form::HealNetwork),
                }
            }
        } else if w == "heal-node"@ {
            if n != 3 {
                c == Command::WrongArity(Form::HealNode)
            } else {
                match (hex(ts[1], U32_MAX), hex(ts[2], U8_MAX)) {
                    (Some(h), Some(d)) => c == Command::HealNode { home_id: h as u32, node_id: d as u8 },
                    _ => c == Command::BadNumber(Form::HealNode),
                }
            }
        } else if w == "values"@ {
            c == Command::Values { all: n > 1 && ts[1] == "all"@ }
        } else if w == "values_dbg"@ {
            c is ValuesDebug
        } else {
            c is Unrecognized
        }
    }
}

/// Whether `t` is the word `w`.
fn is_word(t: &String, w: &str) -> (r: bool)
    ensures
        r == (t@ == w@),
{
    let o = w.to_owned();
    *t == o
}

fn hex_u32(t: &String) -> (r: Option<u32>)
    ensures
        r matches Some(v) ==> hex(t@, U32_MAX) == Some(v as nat),
        r is None ==> hex(t@, U32_MAX) is None,
{
    match parse_numeral(t.as_str(), 16, U32_MAX) {
        Some(v) => Some(v as u32),
        None => None,
    }
}

fn hex_u64(t: &String) -> (r: Option<u64>)
    ensures
        r matches Some(v) ==> hex(t@, U64_MAX) == Some(v as nat),
        r is None ==> hex(t@, U64_MAX) is None,
{
    parse_numeral(t.as_str(), 16, U64_MAX)
}

fn hex_u8(t: &String) -> (r: Option<u8>)
    ensures
        r matches Some(v) ==> hex(t@, U8_MAX) == Some(v as nat),
        r is None ==> hex(t@, U8_MAX) is None,
{
    match parse_numeral(t.as_str(), 16, U8_MAX) {
        Some(v) => Some(v as u8),
        None => None,
    }
}

fn dec_u32(t: &String) -> (r: Option<u32>)
    ensures
        r matches Some(v) ==> dec(t@, U32_MAX) == Some(v as nat),
        r is None ==> dec(t@, U32_MAX) is None,
{
    match parse_numeral(t.as_str(), 10, U32_MAX) {
        Some(v) => Some(v as u32),
        None => None,
    }
}

/// The words of `tokens` as character sequences.
pub open spec fn words(tokens: Seq<String>) -> Seq<Seq<char>> {
    tokens.map_values(|w: String| w@)
}

/// Decodes the words of a console line into a command.
pub fn parse_command(tokens: &Vec<String>) -> (r: Command)
    ensures
        describes(words(tokens@), r),
{
    let ghost ts = words(tokens@);
    let n = tokens.len();
    if n == 0 {
        return Command::Blank;
    }
    proof {
        assert forall|i: int| 0 <= i < n implies ts[i] == (#[trigger] tokens@[i])@ by {}
    }
    let w = &tokens[0];
    if is_word(w, "args") {
        Command::Args
    } else if is_word(w, "exit") || is_word(w, "q") || is_word(w, "quit") {
        Command::Exit
    } else if is_word(w, "add-node") {
        if n < 2 || n > 3 {
            Command::WrongArity(Form::AddNode)
        } else {
            match hex_u32(&tokens[1]) {
                Some(h) => Command::AddNode { home_id: h, secure: n == 3 && is_word(&tokens[2], "secure") },
                None => Command::BadNumber(Form::AddNode),
            }
        }
    } else if is_word(w, "controllers") {
        Command::Controllers
    } else if is_word(w, "controllers_dbg") {
        Command::ControllersDebug
    } else if is_word(w, "nodes") {
        Command::Nodes
    } else if is_word(w, "nodes_dbg") {
        Command::NodesDebug
    } else if is_word(w, "remove-node") {
        if n != 2 {
            Command::WrongArity(Form::RemoveNode)
        } else {
            match hex_u32(&tokens[1]) {
                Some(h) => Command::RemoveNode { home_id: h },
                None => Command::BadNumber(Form::RemoveNode),
            }
        }
    } else if is_word(w, "write_config") {
        Command::WriteConfig
    } else if is_word(w, "set") {
        if n != 4 {
            Command::WrongArity(Form::SetValue)
        } else {
            match (hex_u32(&tokens[1]), hex_u64(&tokens[2])) {
                (Some(h), Some(i)) => Command::SetValue { home_id: h, id: i, value: tokens[3].clone() },
                _ => Command::BadNumber(Form::SetValue),
            }
        }
    } else if is_word(w, "test-network") {
        if n != 3 {
            Command::WrongArity(Form::TestNetwork)
        } else {
            match (hex_u32(&tokens[1]), dec_u32(&tokens[2])) {
                (Some(h), Some(k)) => Command::TestNetwork { home_id: h, count: k },
                _ => Command::BadNumber(Form::TestNetwork),
            }
        }
    } else if is_word(w, "test-node") {
        if n != 4 {
            Command::WrongArity(Form::TestNode)
        } else {
            match (hex_u32(&tokens[1]), hex_u8(&tokens[2]), dec_u32(&tokens[3])) {
                (Some(h), Some(d), Some(k)) => Command::TestNode { home_id: h, node_id: d, count: k },
                _ => Command::BadNumber(Form::TestNode),
            }
        }
    } else if is_word(w, "heal-network") {
        if n != 2 {
            Command::WrongArity(Form::HealNetwork)
        } else {
            match hex_u32(&tokens[1]) {
                Some(h) => Command::HealNetwork { home_id: h },
                None => Command::BadNumber(Form::HealNetwork),
            }
        }
    } else if is_word(w, "heal-node") {
        if n != 3 {
            Command::WrongArity(Form::HealNode)
        } else {
            match (hex_u32(&tokens[1]), hex_u8(&tokens[2])) {
                (Some(h), Some(d)) => Command::HealNode { home_id: h, node_id: d },
                _ => Command::BadNumber(Form::HealNode),
            }
        }
    } else if is_word(w, "values") {
        Command::Values { all: n > 1 && is_word(&tokens[1], "all") }
    } else if is_word(w, "values_dbg") {
        Command::ValuesDebug
    } else {
        Command::Unrecognized
    }
}

/// Splits a console line into words and decodes them.
pub fn read_command(line: &str) -> (r: Command)
    ensures
        describes(words_of(line@), r),
{
    let tokens = split_words(line);
    parse_command(&tokens)
}

/// An operation asked of the driver. Its outcome arrives later, if at all,
/// as notifications.
#[derive(Debug)]
pub enum Request {
    AddNode { home_id: u32, secure: bool },
    RemoveNode { home_id: u32 },
    SetValue { home_id: u32, id: u64, value: String },
    HealNetwork { home_id: u32, return_routes_only: bool },
    HealNode { home_id: u32, node_id: u8, return_routes_only: bool },
    TestNetwork { home_id: u32, count: u32 },
    TestNode { home_id: u32, node_id: u8, count: u32 },
    WriteConfigs,
}

/// `r` is what command `c` asks of the driver when the network is `m`: the
/// operations go out as given (heals over return routes only), a value is set
/// only if it is recorded, and the other commands ask nothing.
pub open spec fn requested(c: Command, m: NetworkModel, r: Option<Request>) -> bool {
    match c {
        Command::AddNode { home_id, secure } => r == Some(Request::AddNode { home_id, secure }),
        Command::RemoveNode { home_id } => r == Some(Request::RemoveNode { home_id }),
        Command::SetValue { home_id, id, value } => if m.values.contains_key((home_id, id)) {
            r matches Some(Request::SetValue { home_id: h, id: i, value: v }) && h == home_id && i == id
                && v@ == value@
        } else {
            r is None
        },
        Command::HealNetwork { home_id } => r == Some(
            Request::HealNetwork { home_id, return_routes_only: true },
        ),
        Command::HealNode { home_id, node_id } => r == Some(
            Request::HealNode { home_id, node_id, return_routes_only: true },
        ),
        Command::TestNetwork { home_id, count } => r == Some(Request::TestNetwork { home_id, count }),
        Command::TestNode { home_id, node_id, count } => r == Some(
            Request::TestNode { home_id, node_id, count },
        ),
        Command::WriteConfig => r == Some(Request::WriteConfigs),
        _ => r is None,
    }
}

/// What command `c` asks of the driver, given the current state; `None` for
/// the commands that only read the state or were malformed, and for setting a
/// value that is not recorded.
pub fn request_for(c: &Command, state: &NetworkState) -> (r: Option<Request>)
    ensures
        requested(*c, state@, r),
{
    match c {
        Command::AddNode { home_id, secure } => Some(Request::AddNode { home_id: *home_id, secure: *secure }),
        Command::RemoveNode { home_id } => Some(Request::RemoveNode { home_id: *home_id }),
        Command::SetValue { home_id, id, value } => {
            if state.has_value(*home_id, *id) {
                Some(Request::SetValue { home_id: *home_id, id: *id, value: value.clone() })
            } else {
                None
            }
        },
        Command::HealNetwork { home_id } => Some(
            Request::HealNetwork { home_id: *home_id, return_routes_only: true },
        ),
        Command::HealNode { home_id, node_id } => Some(
            Request::HealNode { home_id: *home_id, node_id: *node_id, return_routes_only: true },
        ),
        Command::TestNetwork { home_id, count } => Some(
            Request::TestNetwork { home_id: *home_id, count: *count },
        ),
        Command::TestNode { home_id, node_id, count } => Some(
            Request::TestNode { home_id: *home_id, node_id: *node_id, count: *count },
        ),
        Command::WriteConfig => Some(Request::WriteConfigs),
        _ => None,
    }
}

} // verus!
