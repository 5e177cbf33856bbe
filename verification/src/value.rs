//! Typed values: what a prompt accepts, and the selection a traversal ends
//! with.

use crate::menu::Kind;
use crate::text::{bounded_number, chars_of, read_number};
use vstd::prelude::*;

verus! {

/// A value typed in at a prompt.
#[derive(Debug, PartialEq)]
pub enum Value {
    Bool(bool),
    Char(char),
    String(String),
    /// A floating-point number, held as its IEEE 754 binary64 bit pattern.
    F64(u64),
    I64(i64),
    U64(u64),
}

/// The mathematical content of a `Value`.
pub enum Datum {
    Bool(bool),
    Char(char),
    String(Seq<char>),
    F64(u64),
    I64(i64),
    U64(u64),
}

impl View for Value {
    type V = Datum;

    open spec fn view(&self) -> Datum {
        match *self {
            Value::Bool(b) => Datum::Bool(b),
            Value::Char(c) => Datum::Char(c),
            Value::String(s) => Datum::String(s@),
            Value::F64(bits) => Datum::F64(bits),
            Value::I64(n) => Datum::I64(n),
            Value::U64(n) => Datum::U64(n),
        }
    }
}

impl Datum {
    /// The kind of prompt that yields this value.
    pub open spec fn kind(self) -> Kind {
        match self {
            Datum::Bool(_) => Kind::Bool,
            Datum::Char(_) => Kind::Char,
            Datum::String(_) => Kind::String,
            Datum::F64(_) => Kind::F64,
            Datum::I64(_) => Kind::I64,
            Datum::U64(_) => Kind::U64,
        }
    }
}

/// One line typed at a prompt. Reading a line as a floating-point number is
/// left to the caller: `float` holds the bit pattern of the number that
/// `text` writes, or `None` where it writes none.
#[derive(Debug)]
pub struct Reply {
    pub text: String,
    pub float: Option<u64>,
}

/// The data of the selection made in a menu.
#[derive(Debug, PartialEq)]
pub struct Selection {
    /// Name of the selected item.
    pub name: String,
    /// Names from the root menu down to the selected item.
    pub path: Vec<String>,
    /// The value typed in, where the item asked for one.
    pub value: Option<Value>,
    /// How many lines were read until one was accepted.
    pub attempt: Option<i32>,
}

/// The mathematical content of a `Selection`.
pub struct Choice {
    pub name: Seq<char>,
    pub path: Seq<Seq<char>>,
    pub value: Option<Datum>,
    pub attempt: Option<i32>,
}

/// The content of each string of `path`.
pub open spec fn texts(path: Seq<String>) -> Seq<Seq<char>> {
    Seq::new(path.len(), |i: int| path[i]@)
}

impl View for Selection {
    type V = Choice;

    open spec fn view(&self) -> Choice {
        Choice {
            name: self.name@,
            path: texts(self.path@),
            value: match self.value {
                Some(value) => Some(value@),
                None => None,
            },
            attempt: self.attempt,
        }
    }
}

/// How a traversal ends when it ends without a selection.
#[derive(Clone, Copy, Debug, PartialEq, Eq, Structural)]
pub enum Outcome {
    /// The exit key was pressed where the menu allows it.
    Exited,
    /// The input ran out before anything was selected.
    Pending,
    /// The traversal came to a level without items.
    Empty,
}

/// What a line reads as when a `bool` is asked for: exactly `true` or
/// `false`.
pub open spec fn read_bool(text: Seq<char>) -> Option<bool> {
    if text == seq!['t', 'r', 'u', 'e'] {
        Some(true)
    } else if text == seq!['f', 'a', 'l', 's', 'e'] {
        Some(false)
    } else {
        None
    }
}

/// What a line reads as when a character is asked for: the line must hold
/// exactly one.
pub open spec fn read_char(text: Seq<char>) -> Option<char> {
    if text.len() == 1 {
        Some(text[0])
    } else {
        None
    }
}

/// What a line reads as when an unsigned integer is asked for: an optional
/// `+`, then one or more digits that write a number within range.
pub open spec fn read_unsigned(text: Seq<char>) -> Option<u64> {
    let digits = if text.len() > 0 && text[0] == '+' {
        text.skip(1)
    } else {
        text
    };
    match bounded_number(digits, u64::MAX as nat) {
        Some(n) => Some(n as u64),
        None => None,
    }
}

/// What a line reads as when a signed integer is asked for: an optional `+`
/// or `-`, then one or more digits that write a number within range.
pub open spec fn read_signed(text: Seq<char>) -> Option<i64> {
    if text.len() > 0 && text[0] == '-' {
        match bounded_number(text.skip(1), -(i64::MIN as int) as nat) {
            Some(n) => Some((-(n as int)) as i64),
            None => None,
        }
    } else {
        let digits = if text.len() > 0 && text[0] == '+' {
            text.skip(1)
        } else {
            text
        };
        match bounded_number(digits, i64::MAX as nat) {
            Some(n) => Some(n as i64),
            None => None,
        }
    }
}

/// What a reply reads as when a value of `kind` is asked for; `None` where
/// it is refused.
pub open spec fn reads(kind: Kind, text: Seq<char>, float: Option<u64>) -> Option<Datum> {
    match kind {
        Kind::Bool => match read_bool(text) {
            Some(b) => Some(Datum::Bool(b)),
            None => None,
        },
        Kind::Char => match read_char(text) {
            Some(c) => Some(Datum::Char(c)),
            None => None,
        },
        Kind::String => Some(Datum::String(text)),
        Kind::F64 => match float {
            Some(bits) => Some(Datum::F64(bits)),
            None => None,
        },
        Kind::I64 => match read_signed(text) {
            Some(n) => Some(Datum::I64(n)),
            None => None,
        },
        Kind::U64 => match read_unsigned(text) {
            Some(n) => Some(Datum::U64(n)),
            None => None,
        },
    }
}

/// Reads `text` as a `bool`.
pub fn parse_bool(text: &str) -> (value: Option<bool>)
    ensures
        value == read_bool(text@),
{
    let chars = chars_of(text);
    if chars.len() == 4 && chars[0] == 't' && chars[1] == 'r' && chars[2] == 'u' && chars[3]
        == 'e' {
        assert(chars@ =~= seq!['t', 'r', 'u', 'e']);
        Some(true)
    } else if chars.len() == 5 && chars[0] == 'f' && chars[1] == 'a' && chars[2] == 'l'
        && chars[3] == 's' && chars[4] == 'e' {
        assert(chars@ =~= seq!['f', 'a', 'l', 's', 'e']);
        Some(false)
    } else {
        proof {
            let yes = seq!['t', 'r', 'u', 'e'];
            let no = seq!['f', 'a', 'l', 's', 'e'];
            if chars@ == yes {
                assert(yes.len() == 4 && yes[0] == 't' && yes[1] == 'r' && yes[2] == 'u' && yes[3]
                    == 'e');
            }
            if chars@ == no {
                assert(no.len() == 5 && no[0] == 'f' && no[1] == 'a' && no[2] == 'l' && no[3]
                    == 's' && no[4] == 'e');
            }
        }
        None
    }
}

/// Reads `text` as a single character.
pub fn parse_char(text: &str) -> (value: Option<char>)
    ensures
        value == read_char(text@),
{
    let chars = chars_of(text);
    if chars.len() == 1 {
        Some(chars[0])
    } else {
        None
    }
}

/// Reads `text` as an unsigned integer.
pub fn parse_u64(text: &str) -> (value: Option<u64>)
    ensures
        value == read_unsigned(text@),
{
    let chars = chars_of(text);
    let from: usize = if chars.len() > 0 && chars[0] == '+' {
        1
    } else {
        0
    };
    proof {
        assert(chars@.skip(0) =~= chars@);
    }
    read_number(&chars, from, u64::MAX)
}

/// Reads `text` as a signed integer.
pub fn parse_i64(text: &str) -> (value: Option<i64>)
    ensures
        value == read_signed(text@),
{
    let chars = chars_of(text);
    proof {
        assert(chars@.skip(0) =~= chars@);
    }
    if chars.len() > 0 && chars[0] == '-' {
        match read_number(&chars, 1, 0x8000_0000_0000_0000) {
            Some(n) => {
                if n == 0x8000_0000_0000_0000 {
                    Some(i64::MIN)
                } else {
                    Some(-(n as i64))
                }
            },
            None => None,
        }
    } else {
        let from: usize = if chars.len() > 0 && chars[0] == '+' {
            1
        } else {
            0
        };
        match read_number(&chars, from, 0x7fff_ffff_ffff_ffff) {
            Some(n) => Some(n as i64),
            None => None,
        }
    }
}

/// Reads a reply as a value of `kind`. A `String` takes the line as it is;
/// an `F64` takes what the reply carries as its floating-point reading; the
/// other kinds read the text.
pub fn parse_value(kind: Kind, reply: &Reply) -> (value: Option<Value>)
    ensures
        match value {
            Some(v) => reads(kind, reply.text@, reply.float) == Some(v@),
            None => reads(kind, reply.text@, reply.float).is_none(),
        },
{
    match kind {
        Kind::Bool => match parse_bool(reply.text.as_str()) {
            Some(b) => Some(Value::Bool(b)),
            None => None,
        },
        Kind::Char => match parse_char(reply.text.as_str()) {
            Some(c) => Some(Value::Char(c)),
            None => None,
        },
        Kind::String => Some(Value::String(reply.text.clone())),
        Kind::F64 => match reply.float {
            Some(bits) => Some(Value::F64(bits)),
            None => None,
        },
        Kind::I64 => match parse_i64(reply.text.as_str()) {
            Some(n) => Some(Value::I64(n)),
            None => None,
        },
        Kind::U64 => match parse_u64(reply.text.as_str()) {
            Some(n) => Some(Value::U64(n)),
            None => None,
        },
    }
}

} // verus!
