//! What a frame of the menu shows: lines of styled text, ready for a
//! terminal to draw.

use crate::engine::{sound, Move, Navigator, Phase, Position, Step};
use crate::key::{uppercase, uppercased};
use crate::menu::{leads, level, Item, Menu};
use crate::value::texts;
use crate::text::{chars_of, decimal, decimal_text};
use vstd::prelude::*;
use vstd::string::StringExecFns;

verus! {

/// How a piece of text is to be drawn.
#[derive(Clone, Copy, Debug, PartialEq, Eq, Structural)]
pub enum Style {
    /// The terminal's own colour.
    Plain,
    /// A key to press: an index, a hotkey, the name of a key.
    Key,
    /// Punctuation and explanations.
    Dim,
    /// The item under the cursor, and the name of a prompt.
    Hover,
    /// The name of the kind of value a prompt asks for.
    Kind,
    /// The notice that a line was refused.
    Error,
}

/// A piece of text and its style.
#[derive(Debug, PartialEq, Eq)]
pub struct Span {
    pub style: Style,
    pub text: String,
}

/// The mathematical content of a `Span`.
pub struct Piece {
    pub style: Style,
    pub text: Seq<char>,
}

impl View for Span {
    type V = Piece;

    open spec fn view(&self) -> Piece {
        Piece { style: self.style, text: self.text@ }
    }
}

/// The content of a line of spans.
pub open spec fn pieces(line: Seq<Span>) -> Seq<Piece> {
    Seq::new(line.len(), |i: int| line[i]@)
}

/// The content of a frame: each of its lines.
pub open spec fn rows(frame: Seq<Vec<Span>>) -> Seq<Seq<Piece>> {
    Seq::new(frame.len(), |i: int| pieces(frame[i]@))
}

/// Puts a span of `text` at the end of `line`.
fn put(line: &mut Vec<Span>, style: Style, text: &str)
    ensures
        pieces(final(line)@) == pieces(old(line)@).push(Piece { style, text: text@ }),
{
    line.push(Span { style, text: String::from_str(text) });
    proof {
        assert(pieces(line@) =~= pieces(old(line)@).push(Piece { style, text: text@ }));
    }
}

/// Puts the spans of `more` at the end of `line`.
fn join(line: &mut Vec<Span>, more: Vec<Span>)
    ensures
        pieces(final(line)@) == pieces(old(line)@) + pieces(more@),
{
    let mut more = more;
    let ghost added = more@;
    line.append(&mut more);
    proof {
        assert(pieces(line@) =~= pieces(old(line)@) + pieces(added));
    }
}

/// The top line: each name of the path with a `/` after it, then the
/// explanation of the level, if it has one.
pub open spec fn top_pieces(path: Seq<Seq<char>>, note: Option<Seq<char>>) -> Seq<Piece> {
    Seq::new(path.len(), |i: int| Piece { style: Style::Plain, text: path[i] + "/"@ }) + match note {
        Some(text) => seq![
            Piece { style: Style::Plain, text: " "@ },
            Piece { style: Style::Dim, text },
        ],
        None => Seq::empty(),
    }
}

/// A number and a hotkey at the start of an item's line: the item's
/// position and a dot, then the hotkey as it is shown, between brackets, or
/// three blanks where the item has none.
pub open spec fn hotkey_pieces(index: nat, hotkey: Option<Seq<char>>) -> Seq<Piece> {
    seq![
        Piece { style: Style::Key, text: decimal_text(index) },
        Piece { style: Style::Dim, text: "."@ },
    ] + match hotkey {
        Some(text) => seq![
            Piece { style: Style::Dim, text: "("@ },
            Piece { style: Style::Key, text },
            Piece { style: Style::Dim, text: ")"@ },
        ],
        None => seq![Piece { style: Style::Plain, text: "   "@ }],
    }
}

/// A name and an explanation on an item's line: one blank where `offset`
/// holds and two where it does not, the name, marked where the cursor is on
/// it, then a blank and the explanation, if there is one.
pub open spec fn name_pieces(
    hovered: bool,
    offset: bool,
    name: Seq<char>,
    exp: Option<Seq<char>>,
) -> Seq<Piece> {
    seq![
        Piece {
            style: Style::Plain,
            text: if offset {
                " "@
            } else {
                "  "@
            },
        },
        Piece {
            style: if hovered {
                Style::Hover
            } else {
                Style::Plain
            },
            text: name,
        },
    ] + match exp {
        Some(text) => seq![
            Piece { style: Style::Plain, text: " "@ },
            Piece { style: Style::Dim, text },
        ],
        None => Seq::empty(),
    }
}

/// An item's name as its line shows it: `+` before the name of a sub-menu,
/// `=` after the name of a typed prompt, and the name alone for an action.
pub open spec fn shown_name(item: Item) -> Seq<char> {
    if item.is_sub() {
        "+"@ + item.label()
    } else if item.prompt() is Some {
        item.label() + "="@
    } else {
        item.label()
    }
}

/// The line of the item at `index` while the cursor is at `hover`: its
/// position, its hotkey in upper case, its name and its explanation.
pub open spec fn item_pieces(item: Item, index: int, hover: int) -> Seq<Piece> {
    hotkey_pieces(
        index as nat,
        match item.key() {
            Some(c) => Some(uppercased(c)),
            None => None,
        },
    ) + name_pieces(
        index == hover,
        item.is_sub(),
        shown_name(item),
        item.note(),
    )
}

/// The lines of the items of a level, in order.
pub open spec fn item_rows(shown: Seq<Item>, hover: int) -> Seq<Seq<Piece>> {
    Seq::new(shown.len(), |i: int| item_pieces(shown[i], i, hover))
}

impl Menu {
    /// The top line of a frame: the path, and the explanation of the level
    /// at the end of `trail`.
    pub fn print_top(&self, trail: &Vec<usize>, path: &Vec<String>) -> (line: Vec<Span>)
        requires
            leads(self.items@, trail@),
        ensures
            pieces(line@) == top_pieces(texts(path@), self.heading(trail@)),
    {
        let mut line: Vec<Span> = Vec::new();
        let mut at: usize = 0;
        while at < path.len()
            invariant
                at <= path.len(),
                line.len() == at,
                forall|i: int|
                    0 <= i < at ==> (#[trigger] line@[i])@ == (Piece {
                        style: Style::Plain,
                        text: path@[i]@ + "/"@,
                    }),
            decreases path.len() - at,
        {
            let mut text = path[at].clone();
            text.append("/");
            line.push(Span { style: Style::Plain, text });
            at += 1;
        }
        let ghost names = pieces(line@);
        match self.explain(trail) {
            Some(exp) => {
                put(&mut line, Style::Plain, " ");
                put(&mut line, Style::Dim, exp.as_str());
            },
            None => {},
        }
        proof {
            assert(names =~= Seq::new(
                path@.len(),
                |i: int| Piece { style: Style::Plain, text: texts(path@)[i] + "/"@ },
            ));
            assert(pieces(line@) =~= top_pieces(texts(path@), self.heading(trail@)));
        }
        line
    }

    /// The start of an item's line: its position, and its hotkey as
    /// `hotkey` writes it.
    pub fn print_hotkey(&self, index: usize, hotkey: &Option<String>) -> (line: Vec<Span>)
        ensures
            pieces(line@) == hotkey_pieces(
                index as nat,
                match *hotkey {
                    Some(text) => Some(text@),
                    None => None,
                },
            ),
    {
        let mut line: Vec<Span> = Vec::new();
        put(&mut line, Style::Key, decimal(index as u64).as_str());
        put(&mut line, Style::Dim, ".");
        match hotkey {
            Some(text) => {
                put(&mut line, Style::Dim, "(");
                put(&mut line, Style::Key, text.as_str());
                put(&mut line, Style::Dim, ")");
            },
            None => {
                put(&mut line, Style::Plain, "   ");
            },
        }
        proof {
            assert(pieces(line@) =~= hotkey_pieces(
                index as nat,
                match *hotkey {
                    Some(text) => Some(text@),
                    None => None,
                },
            ));
        }
        line
    }

    /// The rest of an item's line: its name, marked where the cursor is on
    /// it, and its explanation.
    pub fn print_name_exp(
        &self,
        index: usize,
        hover: usize,
        offset: bool,
        name: &String,
        exp: &Option<String>,
    ) -> (line: Vec<Span>)
        ensures
            pieces(line@) == name_pieces(
                index == hover,
                offset,
                name@,
                match *exp {
                    Some(text) => Some(text@),
                    None => None,
                },
            ),
    {
        let mut line: Vec<Span> = Vec::new();
        if offset {
            put(&mut line, Style::Plain, " ");
        } else {
            put(&mut line, Style::Plain, "  ");
        }
        if index == hover {
            put(&mut line, Style::Hover, name.as_str());
        } else {
            put(&mut line, Style::Plain, name.as_str());
        }
        match exp {
            Some(text) => {
                put(&mut line, Style::Plain, " ");
                put(&mut line, Style::Dim, text.as_str());
            },
            None => {},
        }
        proof {
            assert(pieces(line@) =~= name_pieces(
                index == hover,
                offset,
                name@,
                match *exp {
                    Some(text) => Some(text@),
                    None => None,
                },
            ));
        }
        line
    }

    /// The lines of the items of the level at the end of `trail`, with the
    /// cursor at `hover`.
    pub fn print_items(&self, trail: &Vec<usize>, hover: usize) -> (frame: Vec<Vec<Span>>)
        requires
            leads(self.items@, trail@),
        ensures
            rows(frame@) == item_rows(level(self.items@, trail@), hover as int),
    {
        let items = self.descend(trail);
        let mut frame: Vec<Vec<Span>> = Vec::new();
        let mut at: usize = 0;
        while at < items.len()
            invariant
                at <= items.len(),
                frame.len() == at,
                forall|i: int|
                    0 <= i < at ==> pieces((#[trigger] frame@[i])@) == item_pieces(
                        items@[i],
                        i,
                        hover as int,
                    ),
            decreases items.len() - at,
        {
            let item = &items[at];
            let hotkey = match item.hotkey() {
                Some(c) => Some(uppercase(c)),
                None => None,
            };
            let mut line = self.print_hotkey(at, &hotkey);
            let rest = match item {
                Item::Action { name, exp, .. } => self.print_name_exp(at, hover, false, name, exp),
                Item::SubMenu { name, exp, .. } => {
                    let mut shown = String::from_str("+");
                    shown.append(name.as_str());
                    self.print_name_exp(at, hover, true, &shown, exp)
                },
                _ => {
                    let mut shown = item.name().clone();
                    shown.append("=");
                    self.print_name_exp(at, hover, false, &shown, item.exp())
                },
            };
            join(&mut line, rest);
            frame.push(line);
            at += 1;
        }
        proof {
            assert(rows(frame@) =~= item_rows(items@, hover as int));
        }
        frame
    }
}

/// A key of the legend: `before`, the key's name, a closing bracket and a
/// blank, then what the key does.
pub open spec fn legend_key(before: Seq<char>, key: Seq<char>, does: Seq<char>) -> Seq<Piece> {
    seq![
        Piece { style: Style::Dim, text: before },
        Piece { style: Style::Key, text: key },
        Piece { style: Style::Dim, text: ") "@ },
        Piece { style: Style::Plain, text: does },
    ]
}

/// The two lines under the items: the keys that work at this level, and
/// the invitation to press one. `Backspace` is named in a sub-menu only,
/// `Esc` only where the menu allows the exit.
pub open spec fn legend(esc: bool, is_sub: bool) -> Seq<Seq<Piece>> {
    let moves = seq![
        Piece { style: Style::Dim, text: "("@ },
        Piece { style: Style::Key, text: "Up"@ },
        Piece { style: Style::Dim, text: ")"@ },
    ] + legend_key("("@, "Down"@, "Move"@) + legend_key(", ("@, "Enter"@, "Select"@);
    let back = if is_sub {
        legend_key(", ("@, "Backspace"@, "Back"@)
    } else {
        Seq::empty()
    };
    let exit = if esc {
        legend_key(", ("@, "Esc"@, "Exit"@)
    } else {
        Seq::empty()
    };
    seq![
        moves + back + exit,
        seq![Piece { style: Style::Dim, text: "Press an index number or a hotkey to select:"@ }],
    ]
}

/// The name of an item's variant.
pub open spec fn variant_name(item: Item) -> Seq<char> {
    match item {
        Item::Action { .. } => "Action"@,
        Item::SubMenu { .. } => "SubMenu"@,
        Item::Bool { .. } => "Bool"@,
        Item::Char { .. } => "Char"@,
        Item::String { .. } => "String"@,
        Item::F64 { .. } => "F64"@,
        Item::I64 { .. } => "I64"@,
        Item::U64 { .. } => "U64"@,
    }
}

/// The request for a value: what to enter, and of which kind.
pub open spec fn request(item: Item) -> Seq<Piece> {
    seq![
        Piece { style: Style::Dim, text: "Enter a value of type ("@ },
        Piece { style: Style::Kind, text: variant_name(item) },
        Piece { style: Style::Dim, text: "):"@ },
    ]
}

/// The two lines of a prompt: the item's name with `=` after it and its
/// explanation, then the request for a value.
pub open spec fn prompt_rows(item: Item) -> Seq<Seq<Piece>> {
    seq![
        seq![
            Piece { style: Style::Plain, text: "       "@ },
            Piece { style: Style::Hover, text: item.label() + "="@ },
            Piece { style: Style::Plain, text: " "@ },
        ] + match item.note() {
            Some(text) => seq![Piece { style: Style::Dim, text }],
            None => Seq::empty(),
        },
        request(item),
    ]
}

/// The line shown after a line was refused: the notice, then the request
/// for a value again.
pub open spec fn retry_pieces(item: Item) -> Seq<Piece> {
    seq![Piece { style: Style::Error, text: "Invalid entry: "@ }] + request(item)
}

/// The text before the blank that stands before the first `{` of `text`.
pub open spec fn before_brace(text: Seq<char>) -> Seq<char>
    recommends
        text.index_of_first('{') matches Some(first) && first >= 1,
{
    text.take(text.index_of_first('{')->0 - 1)
}

/// A count of lines as sixteen bits hold it: the count itself where it
/// fits, the largest count they hold where it is larger, and none where it
/// is negative.
pub open spec fn fitted(lines: int) -> int {
    if lines < 0 {
        0
    } else if lines > u16::MAX {
        u16::MAX as int
    } else {
        lines
    }
}

/// How many lines a frame of `count` items takes: one for each item, one
/// above them and two below.
pub open spec fn frame_lines(count: nat) -> int {
    fitted(count as int + 3)
}

/// How many lines a prompt has taken when its `attempt`-th line has been
/// read: two above the first line typed, and two for each line.
pub open spec fn prompt_lines(attempt: int) -> int {
    fitted(2 + 2 * attempt)
}

/// How many lines to clear after a step: the frame of the level after any
/// step but `Ignore` that a key brought, the lines of the prompt after the
/// line that was accepted, and nothing at any other time.
pub open spec fn erased(before: Phase, step: Move, frame: u16) -> Option<u16> {
    match before {
        Phase::Browsing => if step is Ignore {
            None
        } else {
            Some(frame)
        },
        Phase::Asking { attempt, .. } => if step is Done {
            Some(prompt_lines(attempt as int) as u16)
        } else {
            None
        },
        _ => None,
    }
}

/// Counts the lines of a prompt whose `attempt`-th line has been read.
fn count_prompt(attempt: i32) -> (lines: u16)
    ensures
        lines == prompt_lines(attempt as int),
{
    if attempt < -1 {
        0
    } else if attempt > 0x7ffe {
        0xffff
    } else {
        (2 + 2 * attempt) as u16
    }
}

/// Puts the spans of one key of the legend at the end of `line`.
fn put_key(line: &mut Vec<Span>, before: &str, key: &str, does: &str)
    ensures
        pieces(final(line)@) == pieces(old(line)@) + legend_key(before@, key@, does@),
{
    put(line, Style::Dim, before);
    put(line, Style::Key, key);
    put(line, Style::Dim, ") ");
    put(line, Style::Plain, does);
    proof {
        assert(pieces(line@) =~= pieces(old(line)@) + legend_key(before@, key@, does@));
    }
}

/// Puts the request for a value of the kind of `item` at the end of
/// `line`.
fn put_request(line: &mut Vec<Span>, item: &Item)
    ensures
        pieces(final(line)@) == pieces(old(line)@) + request(*item),
{
    put(line, Style::Dim, "Enter a value of type (");
    let kind = match item {
        Item::Action { .. } => "Action",
        Item::SubMenu { .. } => "SubMenu",
        Item::Bool { .. } => "Bool",
        Item::Char { .. } => "Char",
        Item::String { .. } => "String",
        Item::F64 { .. } => "F64",
        Item::I64 { .. } => "I64",
        Item::U64 { .. } => "U64",
    };
    put(line, Style::Kind, kind);
    put(line, Style::Dim, "):");
    proof {
        assert(pieces(line@) =~= pieces(old(line)@) + request(*item));
    }
}

impl Menu {
    /// The two lines under the items of a level: the legend of the keys,
    /// and the invitation to press one.
    pub fn print_bottom(&self, is_sub: bool) -> (frame: Vec<Vec<Span>>)
        ensures
            rows(frame@) == legend(self.esc, is_sub),
    {
        let mut keys: Vec<Span> = Vec::new();
        put(&mut keys, Style::Dim, "(");
        put(&mut keys, Style::Key, "Up");
        put(&mut keys, Style::Dim, ")");
        put_key(&mut keys, "(", "Down", "Move");
        put_key(&mut keys, ", (", "Enter", "Select");
        if is_sub {
            put_key(&mut keys, ", (", "Backspace", "Back");
        }
        if self.esc {
            put_key(&mut keys, ", (", "Esc", "Exit");
        }
        let mut invitation: Vec<Span> = Vec::new();
        put(&mut invitation, Style::Dim, "Press an index number or a hotkey to select:");
        proof {
            assert(pieces(keys@) =~= legend(self.esc, is_sub)[0]);
            assert(pieces(invitation@) =~= legend(self.esc, is_sub)[1]);
        }
        let mut frame: Vec<Vec<Span>> = Vec::new();
        frame.push(keys);
        frame.push(invitation);
        proof {
            assert(rows(frame@) =~= legend(self.esc, is_sub));
        }
        frame
    }

    /// The two lines of the prompt of `item`.
    pub fn print_name(&self, item: &Item) -> (frame: Vec<Vec<Span>>)
        ensures
            rows(frame@) == prompt_rows(*item),
    {
        let mut name = item.name().clone();
        name.append("=");
        let mut first: Vec<Span> = Vec::new();
        put(&mut first, Style::Plain, "       ");
        put(&mut first, Style::Hover, name.as_str());
        put(&mut first, Style::Plain, " ");
        match item.exp() {
            Some(text) => {
                put(&mut first, Style::Dim, text.as_str());
            },
            None => {},
        }
        let mut second: Vec<Span> = Vec::new();
        put_request(&mut second, item);
        proof {
            assert(pieces(first@) =~= prompt_rows(*item)[0]);
            assert(pieces(second@) =~= prompt_rows(*item)[1]);
        }
        let mut frame: Vec<Vec<Span>> = Vec::new();
        frame.push(first);
        frame.push(second);
        proof {
            assert(rows(frame@) =~= prompt_rows(*item));
        }
        frame
    }

    /// The line that tells that the line typed at the prompt of `item` was
    /// refused.
    pub fn print_invalid(&self, item: &Item) -> (line: Vec<Span>)
        ensures
            pieces(line@) == retry_pieces(*item),
    {
        let mut line: Vec<Span> = Vec::new();
        put(&mut line, Style::Error, "Invalid entry: ");
        put_request(&mut line, item);
        proof {
            assert(pieces(line@) =~= retry_pieces(*item));
        }
        line
    }

    /// How many lines up the frame of the level at the end of `trail`
    /// begins: what to clear before the next frame is drawn.
    pub fn clear_menu(&self, trail: &Vec<usize>) -> (lines: u16)
        requires
            leads(self.items@, trail@),
        ensures
            lines == frame_lines(level(self.items@, trail@).len()),
    {
        let count = self.descend(trail).len();
        if count <= 0xfffc {
            (count + 3) as u16
        } else {
            0xffff
        }
    }

    /// How many lines up a prompt begins when its `attempt`-th line has
    /// been read.
    pub fn clear_prompt(&self, attempt: i32) -> (lines: u16)
        ensures
            lines == prompt_lines(attempt as int),
    {
        count_prompt(attempt)
    }

    /// The name at the start of a record's text: what stands before the
    /// blank and the `{` that open its fields. The character before the
    /// `{` must be one of a single byte.
    pub fn struct_name(&self, item: String) -> (name: String)
        requires
            item@.index_of_first('{') matches Some(first) && first >= 1 && item@[first - 1] as u32
                <= 0x7f,
        ensures
            name@ == before_brace(item@),
    {
        let chars = chars_of(item.as_str());
        let mut first: usize = 0;
        proof {
            item@.index_of_first_ensures('{');
        }
        while first < chars.len() && chars[first] != '{'
            invariant
                first <= chars.len(),
                chars@ == item@,
                item@.contains('{'),
                forall|i: int| 0 <= i < first ==> item@[i] != '{',
            decreases chars.len() - first,
        {
            first += 1;
        }
        assert(first as int == item@.index_of_first('{')->0);
        let name = item.as_str().substring_char(0, first - 1);
        proof {
            assert(item@.subrange(0, first - 1) =~= before_brace(item@));
        }
        String::from_str(name)
    }
}

/// The frame that shows a position: the top line, then the lines of the
/// prompt while one is asking, and the items of the level and the legend
/// at any other time.
pub open spec fn frame_rows(menu: Menu, at: Position) -> Seq<Seq<Piece>> {
    let shown = level(menu.items@, at.trail);
    let top = seq![top_pieces(at.path, menu.heading(at.trail))];
    match at.phase {
        Phase::Asking { index, .. } => top + prompt_rows(shown[index as int]),
        _ => top + item_rows(shown, at.hover) + legend(menu.esc, at.trail.len() > 0),
    }
}

/// Puts the lines of `more` at the end of `frame`.
fn stack(frame: &mut Vec<Vec<Span>>, more: Vec<Vec<Span>>)
    ensures
        rows(final(frame)@) == rows(old(frame)@) + rows(more@),
{
    let mut more = more;
    let ghost added = more@;
    frame.append(&mut more);
    proof {
        assert(rows(frame@) =~= rows(old(frame)@) + rows(added));
    }
}

impl Navigator {
    /// The frame to draw for the position the traversal stands at.
    pub fn printer(&self, menu: &Menu) -> (frame: Vec<Vec<Span>>)
        requires
            sound(*menu, self@),
        ensures
            rows(frame@) == frame_rows(*menu, self@),
    {
        let mut frame: Vec<Vec<Span>> = Vec::new();
        frame.push(menu.print_top(&self.trail, &self.path));
        proof {
            assert(rows(frame@) =~= seq![top_pieces(self@.path, menu.heading(self@.trail))]);
        }
        match self.phase {
            Phase::Asking { index, .. } => {
                let items = menu.descend(&self.trail);
                stack(&mut frame, menu.print_name(&items[index]));
            },
            _ => {
                stack(&mut frame, menu.print_items(&self.trail, self.hover));
                stack(&mut frame, menu.print_bottom(self.trail.len() > 0));
            },
        }
        frame
    }
}

/// Says how many lines to clear after `step`, which was taken while the
/// traversal was in the phase `before` and the frame of its level took
/// `frame` lines; `None` where nothing is to be cleared.
pub fn erase_after(step: &Step, before: Phase, frame: u16) -> (lines: Option<u16>)
    ensures
        lines == erased(before, step@, frame),
{
    match before {
        Phase::Browsing => match step {
            Step::Ignore => None,
            _ => Some(frame),
        },
        Phase::Asking { attempt, .. } => match step {
            Step::Done(_) => Some(count_prompt(attempt)),
            _ => None,
        },
        _ => None,
    }
}

} // verus!
