//! The navigation engine: a state machine that takes one input at a time
//! and says what the menu does next.

use crate::key::{key_of, lowercase, lowercased, match_keycode, stroke_of, Key, KeyPress, Stroke};
use crate::menu::{leads, level, Item, Menu};
use crate::text::{decimal, decimal_text};
use crate::value::{parse_value, reads, texts, Choice, Outcome, Reply, Selection};
use vstd::prelude::*;

verus! {

/// The content of a table of hotkeys.
pub open spec fn marks(table: Seq<Option<String>>) -> Seq<Option<Seq<char>>> {
    Seq::new(
        table.len(),
        |i: int|
            match table[i] {
                Some(text) => Some(text@),
                None => None,
            },
    )
}

/// The hotkeys of `items` in lower case, one entry for each item.
pub open spec fn folded(items: Seq<Item>) -> Seq<Option<Seq<char>>> {
    Seq::new(
        items.len(),
        |i: int|
            match items[i].key() {
                Some(c) => Some(lowercased(c)),
                None => None,
            },
    )
}

/// Whether the item at `index`, whose hotkey in lower case is `mark`,
/// answers to `key`: a character key by the hotkey or by the item's
/// position written in decimal, `Enter` by the cursor standing on the item.
pub open spec fn answers(mark: Option<Seq<char>>, index: int, key: Stroke, hover: int) -> bool {
    match key {
        Stroke::Char(text) => mark == Some(text) || (index >= 0 && text == decimal_text(
            index as nat,
        )),
        Stroke::Enter => index == hover,
        _ => false,
    }
}

/// The first position from `from` on whose item answers to `key`.
pub open spec fn scan(table: Seq<Option<Seq<char>>>, key: Stroke, hover: int, from: int) -> Option<
    int,
>
    decreases table.len() - from,
{
    if from < 0 || from >= table.len() {
        None
    } else if answers(table[from], from, key, hover) {
        Some(from)
    } else {
        scan(table, key, hover, from + 1)
    }
}

/// The position of the item that `key` selects: the first one that answers
/// to it.
pub open spec fn chosen(table: Seq<Option<Seq<char>>>, key: Stroke, hover: int) -> Option<int> {
    scan(table, key, hover, 0)
}

/// A scan finds an item that answers and that nothing before it, from the
/// start of the scan on, answers too; it finds none only where none answers.
pub proof fn lemma_scan(table: Seq<Option<Seq<char>>>, key: Stroke, hover: int, from: int)
    requires
        0 <= from,
    ensures
        match scan(table, key, hover, from) {
            Some(i) => {
                &&& from <= i < table.len()
                &&& answers(table[i], i, key, hover)
                &&& forall|j: int| from <= j < i ==> !answers(#[trigger] table[j], j, key, hover)
            },
            None => forall|j: int|
                from <= j < table.len() ==> !answers(#[trigger] table[j], j, key, hover),
        },
    decreases table.len() - from,
{
    if from < table.len() && !answers(table[from], from, key, hover) {
        lemma_scan(table, key, hover, from + 1);
    }
}

/// The hotkeys of `items`, each in lower case.
pub fn hotkeys(items: &Vec<Item>) -> (table: Vec<Option<String>>)
    ensures
        marks(table@) == folded(items@),
{
    let mut table: Vec<Option<String>> = Vec::new();
    let mut at: usize = 0;
    while at < items.len()
        invariant
            at <= items.len(),
            table.len() == at,
            marks(table@) == folded(items@.take(at as int)),
        decreases items.len() - at,
    {
        let ghost before = table@;
        let mark = match items[at].hotkey() {
            Some(c) => Some(lowercase(c)),
            None => None,
        };
        table.push(mark);
        at += 1;
        proof {
            let shorter = items@.take(at as int - 1);
            let longer = items@.take(at as int);
            assert forall|i: int| 0 <= i < at implies marks(table@)[i] == folded(longer)[i] by {
                if i < at - 1 {
                    assert(table@[i] == before[i]);
                    assert(marks(before)[i] == folded(shorter)[i]);
                    assert(longer[i] == shorter[i]);
                }
            }
            assert(marks(table@) =~= folded(longer));
        }
    }
    proof {
        assert(items@.take(at as int) =~= items@);
    }
    table
}

/// Finds the item that `key` selects among those whose hotkeys, in lower
/// case, are `table`: the first one that answers to the key by its hotkey,
/// by its position or, for `Enter`, by the cursor.
pub fn select(table: &Vec<Option<String>>, key: &Key, hover: usize) -> (found: Option<usize>)
    ensures
        match found {
            Some(i) => {
                &&& chosen(marks(table@), key@, hover as int) == Some(i as int)
                &&& i < table.len()
                &&& answers(marks(table@)[i as int], i as int, key@, hover as int)
                &&& forall|j: int|
                    0 <= j < i ==> !answers(#[trigger] marks(table@)[j], j, key@, hover as int)
            },
            None => {
                &&& chosen(marks(table@), key@, hover as int).is_none()
                &&& forall|j: int|
                    0 <= j < table.len() ==> !answers(
                        #[trigger] marks(table@)[j],
                        j,
                        key@,
                        hover as int,
                    )
            },
        },
{
    let mut at: usize = 0;
    while at < table.len()
        invariant
            at <= table.len(),
            chosen(marks(table@), key@, hover as int) == scan(
                marks(table@),
                key@,
                hover as int,
                at as int,
            ),
        decreases table.len() - at,
    {
        let hit = match key {
            Key::Char(text) => {
                let by_hotkey = match &table[at] {
                    Some(mark) => *mark == *text,
                    None => false,
                };
                by_hotkey || *text == decimal(at as u64)
            },
            Key::Enter => at == hover,
            _ => false,
        };
        assert(hit == answers(marks(table@)[at as int], at as int, key@, hover as int));
        if hit {
            proof {
                lemma_scan(marks(table@), key@, hover as int, 0);
            }
            return Some(at);
        }
        at += 1;
    }
    proof {
        lemma_scan(marks(table@), key@, hover as int, 0);
    }
    None
}

/// What a traversal is doing.
#[derive(Clone, Copy, Debug, PartialEq, Eq, Structural)]
pub enum Phase {
    /// Keys move the cursor and select.
    Browsing,
    /// The typed prompt of the item at `index` reads lines; `attempt` is
    /// the number of the line that is read next.
    Asking { index: usize, attempt: i32 },
    /// The traversal has ended with the item at `index` selected.
    Selected { index: usize },
    /// The traversal has ended with the exit key.
    Exited,
    /// The traversal has stopped at a level without items.
    Empty,
}

/// Where a traversal stands in a menu.
#[derive(Debug, PartialEq, Eq)]
pub struct Navigator {
    /// Positions of the sub-menus entered, outermost first.
    pub trail: Vec<usize>,
    /// Names from the root menu down to the current level, then the name of
    /// the item that is asking or was selected.
    pub path: Vec<String>,
    /// The position of the cursor in the current level.
    pub hover: usize,
    /// What the traversal is doing.
    pub phase: Phase,
}

/// The mathematical content of a `Navigator`.
pub struct Position {
    pub trail: Seq<usize>,
    pub path: Seq<Seq<char>>,
    pub hover: int,
    pub phase: Phase,
}

impl View for Navigator {
    type V = Position;

    open spec fn view(&self) -> Position {
        Position {
            trail: self.trail@,
            path: texts(self.path@),
            hover: self.hover as int,
            phase: self.phase,
        }
    }
}

/// What the engine does in answer to one input.
#[derive(Debug, PartialEq)]
pub enum Step {
    /// Nothing changed: wait for the next input.
    Ignore,
    /// The cursor moved: draw the frame again.
    Rerender,
    /// A sub-menu was entered: draw its frame.
    Descend,
    /// The sub-menu was left: draw the frame of the level above.
    Back,
    /// A typed prompt was selected: draw it and read a line.
    Prompt,
    /// The line was refused: say so and read another.
    Retry,
    /// The traversal ends without a selection.
    Exit,
    /// The traversal ends with a selection.
    Done(Selection),
    /// A sub-menu without items was entered: the traversal cannot go on.
    Fail,
}

/// The mathematical content of a `Step`.
pub enum Move {
    Ignore,
    Rerender,
    Descend,
    Back,
    Prompt,
    Retry,
    Exit,
    Done(Choice),
    Fail,
}

impl View for Step {
    type V = Move;

    open spec fn view(&self) -> Move {
        match *self {
            Step::Ignore => Move::Ignore,
            Step::Rerender => Move::Rerender,
            Step::Descend => Move::Descend,
            Step::Back => Move::Back,
            Step::Prompt => Move::Prompt,
            Step::Retry => Move::Retry,
            Step::Exit => Move::Exit,
            Step::Done(selection) => Move::Done(selection@),
            Step::Fail => Move::Fail,
        }
    }
}

/// Where a traversal of `menu` begins: at the root, the cursor on the first
/// item, the path holding the menu's name. A menu without items stops the
/// traversal before it starts.
pub open spec fn start(menu: Menu) -> Position {
    Position {
        trail: Seq::empty(),
        path: seq![menu.name@],
        hover: 0,
        phase: if menu.items@.len() == 0 {
            Phase::Empty
        } else {
            Phase::Browsing
        },
    }
}

/// Whether `at` is a position in `menu`. The trail leads to a level of the
/// tree. Unless the traversal has stopped there for want of items, the
/// level holds items and the cursor stands on one of them. The path names
/// the menu and the sub-menus entered, and after them the item that is
/// asking or was selected. An item that is asking is a typed prompt; an
/// item that was selected is no sub-menu.
pub open spec fn sound(menu: Menu, at: Position) -> bool {
    let shown = level(menu.items@, at.trail);
    &&& leads(menu.items@, at.trail)
    &&& match at.phase {
        Phase::Browsing | Phase::Exited => {
            &&& 0 <= at.hover < shown.len()
            &&& at.path == menu.crumbs(at.trail)
        },
        Phase::Asking { index, attempt } => {
            &&& 0 <= at.hover < shown.len()
            &&& index < shown.len()
            &&& shown[index as int].prompt() is Some
            &&& attempt >= 1
            &&& at.path == menu.crumbs(at.trail).push(shown[index as int].label())
        },
        Phase::Selected { index } => {
            &&& 0 <= at.hover < shown.len()
            &&& index < shown.len()
            &&& !shown[index as int].is_sub()
            &&& at.path == menu.crumbs(at.trail).push(shown[index as int].label())
        },
        Phase::Empty => {
            &&& shown.len() == 0
            &&& at.hover == 0
            &&& at.path == menu.crumbs(at.trail)
        },
    }
}

/// What selecting the item at `index` of the level `shown` does. Each case
/// puts the item's name at the end of the path. An action ends the
/// traversal with the selection of that name and path. A sub-menu is
/// entered with the cursor on its first item, and stops the traversal where
/// it holds no items. A typed prompt starts asking for its first line.
pub open spec fn picked(shown: Seq<Item>, at: Position, index: int) -> (Position, Move) {
    let item = shown[index];
    let path = at.path.push(item.label());
    if item.is_sub() {
        if item.children().len() == 0 {
            (
                Position {
                    trail: at.trail.push(index as usize),
                    path,
                    hover: 0,
                    phase: Phase::Empty,
                },
                Move::Fail,
            )
        } else {
            (
                Position {
                    trail: at.trail.push(index as usize),
                    path,
                    hover: 0,
                    phase: Phase::Browsing,
                },
                Move::Descend,
            )
        }
    } else if item.prompt() is Some {
        (
            Position {
                trail: at.trail,
                path,
                hover: at.hover,
                phase: Phase::Asking { index: index as usize, attempt: 1 },
            },
            Move::Prompt,
        )
    } else {
        (
            Position {
                trail: at.trail,
                path,
                hover: at.hover,
                phase: Phase::Selected { index: index as usize },
            },
            Move::Done(Choice { name: item.label(), path, value: None, attempt: None }),
        )
    }
}

/// The position after a key, and what the engine does. Unless the
/// traversal is browsing, and for a press that is no key, nothing happens.
/// `Back` leaves a sub-menu for the level above, cursor on the first item.
/// `Exit` ends the traversal where the menu allows it. `Up` and `Down` move
/// the cursor within the level. Any other key, and each of these where it
/// has no effect, selects the first item that answers to it, or is ignored.
pub open spec fn after_key(menu: Menu, at: Position, key: Option<Stroke>) -> (Position, Move) {
    let shown = level(menu.items@, at.trail);
    if !(at.phase is Browsing) || key is None {
        (at, Move::Ignore)
    } else if key == Some(Stroke::Back) && at.trail.len() > 0 {
        (
            Position {
                trail: at.trail.drop_last(),
                path: at.path.drop_last(),
                hover: 0,
                phase: Phase::Browsing,
            },
            Move::Back,
        )
    } else if key == Some(Stroke::Exit) && menu.esc {
        (
            Position { trail: at.trail, path: at.path, hover: at.hover, phase: Phase::Exited },
            Move::Exit,
        )
    } else if key == Some(Stroke::Up) && at.hover > 0 {
        (
            Position {
                trail: at.trail,
                path: at.path,
                hover: at.hover - 1,
                phase: Phase::Browsing,
            },
            Move::Rerender,
        )
    } else if key == Some(Stroke::Down) && at.hover + 1 < shown.len() {
        (
            Position {
                trail: at.trail,
                path: at.path,
                hover: at.hover + 1,
                phase: Phase::Browsing,
            },
            Move::Rerender,
        )
    } else {
        match chosen(folded(shown), key->0, at.hover) {
            Some(index) => picked(shown, at, index),
            None => (at, Move::Ignore),
        }
    }
}

/// Whether a prompt is asking at `at` and refuses the line.
pub open spec fn refused(menu: Menu, at: Position, text: Seq<char>, float: Option<u64>) -> bool {
    match at.phase {
        Phase::Asking { index, .. } => match level(menu.items@, at.trail)[index as int].prompt() {
            Some(kind) => reads(kind, text, float).is_none(),
            None => false,
        },
        _ => false,
    }
}

/// Whether the line can be taken at `at`: a line that is refused is
/// counted, and the count must fit its type.
pub open spec fn countable(menu: Menu, at: Position, text: Seq<char>, float: Option<u64>) -> bool {
    refused(menu, at, text, float) ==> (at.phase matches Phase::Asking { attempt, .. } && attempt
        < i32::MAX)
}

/// The position after a line of input, and what the engine does. Where no
/// prompt is asking nothing happens. A line that reads as a value of the
/// prompt's kind ends the traversal with that value and the number of lines
/// it took; any other line is counted and asked for again. Neither changes
/// the path.
pub open spec fn after_line(menu: Menu, at: Position, text: Seq<char>, float: Option<u64>) -> (
    Position,
    Move,
) {
    let shown = level(menu.items@, at.trail);
    match at.phase {
        Phase::Asking { index, attempt } => {
            let item = shown[index as int];
            match item.prompt() {
                None => (at, Move::Ignore),
                Some(kind) => match reads(kind, text, float) {
                    Some(value) => (
                        Position {
                            trail: at.trail,
                            path: at.path,
                            hover: at.hover,
                            phase: Phase::Selected { index },
                        },
                        Move::Done(
                            Choice {
                                name: item.label(),
                                path: at.path,
                                value: Some(value),
                                attempt: Some(attempt),
                            },
                        ),
                    ),
                    None => (
                        Position {
                            trail: at.trail,
                            path: at.path,
                            hover: at.hover,
                            phase: Phase::Asking { index, attempt: (attempt + 1) as i32 },
                        },
                        Move::Retry,
                    ),
                },
            }
        },
        _ => (at, Move::Ignore),
    }
}

/// A copy of `path`.
fn copy_path(path: &Vec<String>) -> (copy: Vec<String>)
    ensures
        texts(copy@) == texts(path@),
{
    let mut copy: Vec<String> = Vec::new();
    let mut at: usize = 0;
    while at < path.len()
        invariant
            at <= path.len(),
            copy.len() == at,
            forall|i: int| 0 <= i < at ==> (#[trigger] copy@[i])@ == path@[i]@,
        decreases path.len() - at,
    {
        copy.push(path[at].clone());
        at += 1;
    }
    proof {
        assert(texts(copy@) =~= texts(path@));
    }
    copy
}

impl Navigator {
    /// The navigator at the start of a traversal of `menu`.
    pub fn new(menu: &Menu) -> (nav: Navigator)
        ensures
            nav@ == start(*menu),
            sound(*menu, nav@),
    {
        let mut path: Vec<String> = Vec::new();
        path.push(menu.name.clone());
        let phase = if menu.items.len() == 0 {
            Phase::Empty
        } else {
            Phase::Browsing
        };
        let nav = Navigator { trail: Vec::new(), path, hover: 0, phase };
        proof {
            assert(nav@.trail =~= Seq::<usize>::empty());
            assert(nav@.path =~= seq![menu.name@]);
            assert(menu.crumbs(nav@.trail) =~= seq![menu.name@]);
        }
        nav
    }

    /// Takes one key and says what the menu does next.
    pub fn match_selection(&mut self, menu: &Menu, key: &Option<Key>) -> (step: Step)
        requires
            sound(*menu, old(self)@),
        ensures
            sound(*menu, final(self)@),
            (final(self)@, step@) == after_key(*menu, old(self)@, stroke_of(*key)),
    {
        match self.phase {
            Phase::Browsing => {},
            _ => {
                return Step::Ignore;
            },
        }
        let key = match key {
            Some(key) => key,
            None => {
                return Step::Ignore;
            },
        };
        let items = menu.descend(&self.trail);
        let ghost at = self@;
        let ghost crumbs = menu.crumbs(at.trail);
        match key {
            Key::Back => {
                if self.trail.len() > 0 {
                    self.trail.pop();
                    self.path.pop();
                    self.hover = 0;
                    proof {
                        let shorter = at.trail.drop_last();
                        assert(self@.trail =~= shorter);
                        assert(self@.path =~= at.path.drop_last());
                        assert(menu.crumbs(shorter) =~= crumbs.drop_last());
                    }
                    return Step::Back;
                }
            },
            Key::Exit => {
                if menu.esc {
                    self.phase = Phase::Exited;
                    return Step::Exit;
                }
            },
            Key::Up => {
                if self.hover > 0 {
                    self.hover -= 1;
                    return Step::Rerender;
                }
            },
            Key::Down => {
                if self.hover < items.len() - 1 {
                    self.hover += 1;
                    return Step::Rerender;
                }
            },
            _ => {},
        }
        let table = hotkeys(items);
        match select(&table, key, self.hover) {
            None => Step::Ignore,
            Some(index) => {
                let item = &items[index];
                let name = item.name().clone();
                self.path.push(name);
                proof {
                    assert(self@.path =~= at.path.push(item.label()));
                }
                match item {
                    Item::SubMenu { items: inner, .. } => {
                        self.trail.push(index);
                        self.hover = 0;
                        proof {
                            let longer = at.trail.push(index);
                            assert(longer.drop_last() =~= at.trail);
                            assert(menu.crumbs(longer) =~= crumbs.push(item.label()));
                        }
                        if inner.len() == 0 {
                            self.phase = Phase::Empty;
                            Step::Fail
                        } else {
                            Step::Descend
                        }
                    },
                    Item::Action { .. } => {
                        self.phase = Phase::Selected { index };
                        Step::Done(
                            Selection {
                                name: item.name().clone(),
                                path: copy_path(&self.path),
                                value: None,
                                attempt: None,
                            },
                        )
                    },
                    _ => {
                        self.phase = Phase::Asking { index, attempt: 1 };
                        Step::Prompt
                    },
                }
            },
        }
    }

    /// Whether the line can be taken: whether it is accepted, or is refused
    /// while the count of lines has room for one more.
    pub fn admits(&self, menu: &Menu, reply: &Reply) -> (ok: bool)
        requires
            sound(*menu, self@),
        ensures
            ok == countable(*menu, self@, reply.text@, reply.float),
    {
        match self.phase {
            Phase::Asking { index, attempt } => {
                if attempt < i32::MAX {
                    true
                } else {
                    let items = menu.descend(&self.trail);
                    match items[index].kind() {
                        Some(kind) => parse_value(kind, reply).is_some(),
                        None => true,
                    }
                }
            },
            _ => true,
        }
    }

    /// Takes one line typed at the prompt that is asking and says what the
    /// menu does next. A line that is accepted is taken whatever the count
    /// of lines; one that is refused must find room in the count.
    pub fn match_input(&mut self, menu: &Menu, reply: &Reply) -> (step: Step)
        requires
            sound(*menu, old(self)@),
            countable(*menu, old(self)@, reply.text@, reply.float),
        ensures
            sound(*menu, final(self)@),
            (final(self)@, step@) == after_line(*menu, old(self)@, reply.text@, reply.float),
    {
        let (index, attempt) = match self.phase {
            Phase::Asking { index, attempt } => (index, attempt),
            _ => {
                return Step::Ignore;
            },
        };
        let items = menu.descend(&self.trail);
        let item = &items[index];
        let kind = match item.kind() {
            Some(kind) => kind,
            None => {
                return Step::Ignore;
            },
        };
        match parse_value(kind, reply) {
            Some(value) => {
                self.phase = Phase::Selected { index };
                Step::Done(
                    Selection {
                        name: item.name().clone(),
                        path: copy_path(&self.path),
                        value: Some(value),
                        attempt: Some(attempt),
                    },
                )
            },
            None => {
                self.phase = Phase::Asking { index, attempt: attempt + 1 };
                Step::Retry
            },
        }
    }
}

/// One input to a traversal: a key press, or a line typed at a prompt.
#[derive(Debug)]
pub enum Input {
    Press(KeyPress),
    Line(Reply),
}

/// The position after one input, and what the engine does. A key press
/// counts as its logical key; a line goes to the prompt that is asking.
pub open spec fn fed(menu: Menu, at: Position, input: Input) -> (Position, Move) {
    match input {
        Input::Press(press) => after_key(menu, at, key_of(press)),
        Input::Line(reply) => after_line(menu, at, reply.text@, reply.float),
    }
}

/// Whether the input can be taken at `at`: any key press can, and a line
/// where it is countable.
pub open spec fn admitted(menu: Menu, at: Position, input: Input) -> bool {
    match input {
        Input::Press(_) => true,
        Input::Line(reply) => countable(menu, at, reply.text@, reply.float),
    }
}

/// Whether each of `inputs`, as far as the traversal looks at them, can be
/// taken where it arrives.
pub open spec fn all_admitted(menu: Menu, at: Position, inputs: Seq<Input>) -> bool
    decreases inputs.len(),
{
    at.phase is Empty || inputs.len() == 0 || {
        let after = fed(menu, at, inputs[0]);
        &&& admitted(menu, at, inputs[0])
        &&& (after.1 is Done || after.1 is Exit || all_admitted(
            menu,
            after.0,
            inputs.drop_first(),
        ))
    }
}

/// How a traversal that stands at `at` ends when it is given `inputs` in
/// order: with `Empty` where it stands at or comes to a level without
/// items, with the first selection made, with `Exited` at the first exit, or
/// with `Pending` where the inputs run out before any of these. Inputs
/// after the end are not looked at.
pub open spec fn replay(menu: Menu, at: Position, inputs: Seq<Input>) -> Result<Choice, Outcome>
    decreases inputs.len(),
{
    if at.phase is Empty {
        Err(Outcome::Empty)
    } else if inputs.len() == 0 {
        Err(Outcome::Pending)
    } else {
        let after = fed(menu, at, inputs[0]);
        match after.1 {
            Move::Done(choice) => Ok(choice),
            Move::Exit => Err(Outcome::Exited),
            _ => replay(menu, after.0, inputs.drop_first()),
        }
    }
}

/// The content of the result of a traversal.
pub open spec fn ending(result: Result<Selection, Outcome>) -> Result<Choice, Outcome> {
    match result {
        Ok(selection) => Ok(selection@),
        Err(outcome) => Err(outcome),
    }
}

/// Fewer inputs than the count of lines can hold can all be taken: a
/// prompt that has read `attempt` lines can take as many more as the count
/// has room for.
pub proof fn lemma_all_admitted(menu: Menu, at: Position, inputs: Seq<Input>)
    requires
        inputs.len() < i32::MAX,
        at.phase matches Phase::Asking { attempt, .. } ==> attempt + inputs.len() <= i32::MAX,
    ensures
        all_admitted(menu, at, inputs),
    decreases inputs.len(),
{
    if !(at.phase is Empty) && inputs.len() > 0 {
        let after = fed(menu, at, inputs[0]);
        lemma_all_admitted(menu, after.0, inputs.drop_first());
    }
}

impl Navigator {
    /// Takes one input, whichever kind it is, and says what the menu does
    /// next.
    pub fn feed(&mut self, menu: &Menu, input: &Input) -> (step: Step)
        requires
            sound(*menu, old(self)@),
            admitted(*menu, old(self)@, *input),
        ensures
            sound(*menu, final(self)@),
            (final(self)@, step@) == fed(*menu, old(self)@, *input),
    {
        match input {
            Input::Press(press) => {
                let key = match_keycode(*press);
                self.match_selection(menu, &key)
            },
            Input::Line(reply) => self.match_input(menu, reply),
        }
    }
}

impl Menu {
    /// Runs the menu from its root on a recorded sequence of inputs and
    /// returns how the traversal ends; `None` where a refused line finds no
    /// room in the count of lines.
    pub fn try_run(&self, inputs: &Vec<Input>) -> (result: Option<Result<Selection, Outcome>>)
        ensures
            match result {
                Some(end) => {
                    &&& all_admitted(*self, start(*self), inputs@)
                    &&& ending(end) == replay(*self, start(*self), inputs@)
                },
                None => !all_admitted(*self, start(*self), inputs@),
            },
    {
        let mut nav = Navigator::new(self);
        let mut at: usize = 0;
        proof {
            assert(inputs@.skip(0) =~= inputs@);
        }
        loop
            invariant
                at <= inputs.len(),
                sound(*self, nav@),
                all_admitted(*self, start(*self), inputs@) == all_admitted(
                    *self,
                    nav@,
                    inputs@.skip(at as int),
                ),
                replay(*self, start(*self), inputs@) == replay(
                    *self,
                    nav@,
                    inputs@.skip(at as int),
                ),
            decreases inputs.len() - at,
        {
            match nav.phase {
                Phase::Empty => {
                    return Some(Err(Outcome::Empty));
                },
                _ => {},
            }
            if at == inputs.len() {
                return Some(Err(Outcome::Pending));
            }
            proof {
                let rest = inputs@.skip(at as int);
                assert(rest[0] == inputs@[at as int]);
                assert(rest.drop_first() =~= inputs@.skip(at as int + 1));
            }
            let room = match &inputs[at] {
                Input::Press(_) => true,
                Input::Line(reply) => nav.admits(self, reply),
            };
            if !room {
                return None;
            }
            match nav.feed(self, &inputs[at]) {
                Step::Done(selection) => {
                    return Some(Ok(selection));
                },
                Step::Exit => {
                    return Some(Err(Outcome::Exited));
                },
                _ => {},
            }
            at += 1;
        }
    }

    /// Runs the menu from its root on a recorded sequence of inputs, each of
    /// which can be taken where it arrives, and returns how the traversal
    /// ends.
    pub fn run(&self, inputs: &Vec<Input>) -> (result: Result<Selection, Outcome>)
        requires
            all_admitted(*self, start(*self), inputs@),
        ensures
            ending(result) == replay(*self, start(*self), inputs@),
    {
        self.try_run(inputs).unwrap()
    }
}

} // verus!
