//! Laws of the navigation engine, stated over its model and proved.

use crate::engine::{
    admitted, after_key, after_line, all_admitted, answers, chosen, countable, fed, folded,
    lemma_scan, picked, refused, replay, sound, Input, Move, Phase, Position,
};
use crate::key::{key_of, KeyPress, Stroke};
use crate::menu::{lemma_level_fits, level, names, Menu};
use crate::text::{decimal_text, is_digit, lemma_decimal_text};
use crate::value::{reads, Choice, Datum, Reply};
use vstd::prelude::*;

verus! {

/// The position after a run of keys, each taken in turn.
pub open spec fn after_keys(menu: Menu, at: Position, keys: Seq<Stroke>) -> Position
    decreases keys.len(),
{
    if keys.len() == 0 {
        at
    } else {
        after_keys(menu, after_key(menu, at, Some(keys[0])).0, keys.drop_first())
    }
}

/// A key that answers nowhere selects nothing.
proof fn lemma_nothing_chosen(table: Seq<Option<Seq<char>>>, key: Stroke, hover: int)
    requires
        !(key is Char),
        !(key is Enter),
    ensures
        chosen(table, key, hover).is_none(),
{
    lemma_scan(table, key, hover, 0);
}

/// An item that answers, with none before it that does, is the one chosen.
proof fn lemma_first_chosen(table: Seq<Option<Seq<char>>>, key: Stroke, hover: int, index: int)
    requires
        0 <= index < table.len(),
        answers(table[index], index, key, hover),
        forall|j: int| 0 <= j < index ==> !answers(#[trigger] table[j], j, key, hover),
    ensures
        chosen(table, key, hover) == Some(index),
{
    lemma_scan(table, key, hover, 0);
}

/// While the traversal is browsing, `Up` and `Down` keep the cursor on an
/// item of the level: `Up` on the first item and `Down` on the last change
/// nothing, and neither ever ends the traversal or leaves the level.
pub proof fn law_cursor_step(menu: Menu, at: Position, key: Stroke)
    requires
        sound(menu, at),
        at.phase is Browsing,
        key is Up || key is Down,
    ensures
        ({
            let count = level(menu.items@, at.trail).len();
            let after = after_key(menu, at, Some(key));
            &&& sound(menu, after.0)
            &&& after.0.trail == at.trail
            &&& after.0.path == at.path
            &&& after.0.phase is Browsing
            &&& 0 <= after.0.hover < count
            &&& key is Up && at.hover == 0 ==> after == (at, Move::Ignore)
            &&& key is Down && at.hover == count - 1 ==> after == (at, Move::Ignore)
            &&& key is Up && at.hover > 0 ==> after.0.hover == at.hover - 1
            &&& key is Down && at.hover < count - 1 ==> after.0.hover == at.hover + 1
        }),
{
    lemma_nothing_chosen(folded(level(menu.items@, at.trail)), key, at.hover);
}

/// Whatever run of `Up` and `Down` keys is pressed while the traversal is
/// browsing, the cursor stays on an item of the level and the level stays
/// the same.
pub proof fn law_cursor_stays(menu: Menu, at: Position, keys: Seq<Stroke>)
    requires
        sound(menu, at),
        at.phase is Browsing,
        forall|i: int| 0 <= i < keys.len() ==> keys[i] is Up || keys[i] is Down,
    ensures
        ({
            let after = after_keys(menu, at, keys);
            &&& sound(menu, after)
            &&& after.trail == at.trail
            &&& after.path == at.path
            &&& after.phase is Browsing
            &&& 0 <= after.hover < level(menu.items@, at.trail).len()
        }),
    decreases keys.len(),
{
    if keys.len() > 0 {
        law_cursor_step(menu, at, keys[0]);
        let next = after_key(menu, at, Some(keys[0])).0;
        let rest = keys.drop_first();
        assert forall|i: int| 0 <= i < rest.len() implies rest[i] is Up || rest[i] is Down by {
            assert(rest[i] == keys[i + 1]);
        }
        law_cursor_stays(menu, next, rest);
    }
}

/// An item is selected alike by its position typed as a number, by its
/// hotkey, and by `Enter` with the cursor on it. The first item that answers
/// wins, so the law holds where no earlier item has the same hotkey or a
/// hotkey that reads as this item's position, and where this item's hotkey
/// does not read as an earlier position.
pub proof fn law_same_item(table: Seq<Option<Seq<char>>>, index: int, hover: int)
    requires
        0 <= index < table.len(),
        forall|j: int|
            0 <= j < index ==> #[trigger] table[j] != Some(decimal_text(index as nat)),
        table[index] matches Some(mark) ==> forall|j: int|
            0 <= j < index ==> #[trigger] table[j] != Some(mark) && mark != decimal_text(j as nat),
    ensures
        chosen(table, Stroke::Char(decimal_text(index as nat)), hover) == Some(index),
        chosen(table, Stroke::Enter, index) == Some(index),
        table[index] matches Some(mark) ==> chosen(table, Stroke::Char(mark), hover) == Some(
            index,
        ),
{
    let by_number = Stroke::Char(decimal_text(index as nat));
    assert forall|j: int| 0 <= j < index implies !answers(
        #[trigger] table[j],
        j,
        by_number,
        hover,
    ) by {
        if decimal_text(index as nat) == decimal_text(j as nat) {
            crate::text::lemma_decimal_text_injective(index as nat, j as nat);
        }
    }
    lemma_first_chosen(table, by_number, hover, index);
    lemma_first_chosen(table, Stroke::Enter, index, index);
    if let Some(mark) = table[index] {
        lemma_first_chosen(table, Stroke::Char(mark), hover, index);
    }
}

/// Whichever of the three ways selects an item, the engine does the same
/// and comes to the same position but for the cursor: what the item's
/// position typed as a number does, its hotkey does, and so does `Enter`
/// with the cursor on the item. For an action that is the selection of the
/// same name and path, and the path of the position is that path. The law
/// holds where no earlier item takes the key first (see `law_same_item`).
pub proof fn law_same_selection(menu: Menu, at: Position, index: int)
    requires
        sound(menu, at),
        at.phase is Browsing,
        0 <= index < level(menu.items@, at.trail).len(),
        forall|j: int|
            0 <= j < index ==> #[trigger] folded(level(menu.items@, at.trail))[j] != Some(
                decimal_text(index as nat),
            ),
        folded(level(menu.items@, at.trail))[index] matches Some(mark) ==> forall|j: int|
            0 <= j < index ==> #[trigger] folded(level(menu.items@, at.trail))[j] != Some(mark)
                && mark != decimal_text(j as nat),
    ensures
        ({
            let shown = level(menu.items@, at.trail);
            let done = picked(shown, at, index);
            let on_item = Position {
                trail: at.trail,
                path: at.path,
                hover: index,
                phase: Phase::Browsing,
            };
            let by_number = after_key(menu, at, Some(Stroke::Char(decimal_text(index as nat))));
            let by_enter = after_key(menu, on_item, Some(Stroke::Enter));
            &&& by_number == done
            &&& by_enter.1 == done.1
            &&& by_enter.0.path == done.0.path
            &&& by_enter.0.trail == done.0.trail
            &&& by_enter.0.phase == done.0.phase
            &&& folded(shown)[index] matches Some(mark) ==> after_key(
                menu,
                at,
                Some(Stroke::Char(mark)),
            ) == done
            &&& shown[index] is Action ==> {
                &&& done.1 == Move::Done(
                    Choice {
                        name: shown[index].label(),
                        path: at.path.push(shown[index].label()),
                        value: None,
                        attempt: None,
                    },
                )
                &&& done.0.path == at.path.push(shown[index].label())
            }
        }),
{
    law_same_item(folded(level(menu.items@, at.trail)), index, at.hover);
}

/// A selection's path is the path the traversal has come to: the names of
/// the menu and of the sub-menus entered, then the name of the item
/// selected, which is the selection's name.
pub proof fn law_selection_path(menu: Menu, at: Position, input: Input)
    requires
        sound(menu, at),
        fed(menu, at, input).1 is Done,
    ensures
        ({
            let after = fed(menu, at, input);
            let choice = after.1->Done_0;
            &&& after.0.path == choice.path
            &&& after.0.phase is Selected
            &&& after.0.trail == at.trail
            &&& choice.path == menu.crumbs(at.trail).push(choice.name)
        }),
{
    match input {
        Input::Press(press) => {
            let shown = level(menu.items@, at.trail);
            lemma_scan(folded(shown), key_of(press)->0, at.hover, 0);
        },
        Input::Line(reply) => {},
    }
}

/// Entering a sub-menu puts one name at the end of the path, and `Back`
/// from there gives the path and the level as they were, with the cursor on
/// the first item.
pub proof fn law_round_trip(menu: Menu, at: Position, key: Option<Stroke>)
    requires
        sound(menu, at),
        after_key(menu, at, key).1 is Descend,
    ensures
        ({
            let inside = after_key(menu, at, key).0;
            &&& sound(menu, inside)
            &&& inside.path.len() == at.path.len() + 1
            &&& inside.path.drop_last() == at.path
            &&& inside.trail.len() == at.trail.len() + 1
            &&& inside.phase is Browsing
            &&& after_key(menu, inside, Some(Stroke::Back)) == (
                Position { trail: at.trail, path: at.path, hover: 0, phase: Phase::Browsing },
                Move::Back,
            )
        }),
{
    let shown = level(menu.items@, at.trail);
    let table = folded(shown);
    lemma_scan(table, key->0, at.hover, 0);
    lemma_level_fits(menu, at.trail);
    let index = chosen(table, key->0, at.hover)->0;
    let inside = after_key(menu, at, key).0;
    assert(inside.trail == at.trail.push(index as usize));
    assert(inside.trail.drop_last() =~= at.trail);
    assert(inside.path.drop_last() =~= at.path);
    assert(menu.crumbs(inside.trail) =~= menu.crumbs(at.trail).push(shown[index].label()));
}

/// The text that writes a value: `true` or `false`, the character alone,
/// the string itself, or the decimal numeral with `-` before a negative
/// number. A floating-point number has no text here.
pub open spec fn written(value: Datum) -> Seq<char>
    recommends
        !(value is F64),
{
    match value {
        Datum::Bool(b) => if b {
            seq!['t', 'r', 'u', 'e']
        } else {
            seq!['f', 'a', 'l', 's', 'e']
        },
        Datum::Char(c) => seq![c],
        Datum::String(s) => s,
        Datum::F64(_) => Seq::empty(),
        Datum::I64(n) => if n < 0 {
            seq!['-'] + decimal_text((-n) as nat)
        } else {
            decimal_text(n as nat)
        },
        Datum::U64(n) => decimal_text(n as nat),
    }
}

/// Reading the text that writes a value gives the value back.
pub proof fn law_reads_written(value: Datum, float: Option<u64>)
    requires
        !(value is F64),
    ensures
        reads(value.kind(), written(value), float) == Some(value),
{
    match value {
        Datum::Bool(b) => {
            let yes = seq!['t', 'r', 'u', 'e'];
            let no = seq!['f', 'a', 'l', 's', 'e'];
            assert(yes.len() == 4 && no.len() == 5);
        },
        Datum::Char(c) => {},
        Datum::String(s) => {},
        Datum::F64(_) => {},
        Datum::I64(n) => {
            if n < 0 {
                let digits = decimal_text((-n) as nat);
                lemma_decimal_text((-n) as nat);
                assert(written(value).skip(1) =~= digits);
                assert(written(value)[0] == '-');
            } else {
                let digits = decimal_text(n as nat);
                lemma_decimal_text(n as nat);
                assert(is_digit(digits[0]));
            }
        },
        Datum::U64(n) => {
            let digits = decimal_text(n as nat);
            lemma_decimal_text(n as nat);
            assert(is_digit(digits[0]));
        },
    }
}

/// A line that reads as the kind asked for is taken whatever the number of
/// lines before it: it ends the traversal with its value, the number of
/// lines it took, and the path as it stood.
pub proof fn law_accepted_line(menu: Menu, at: Position, text: Seq<char>, float: Option<u64>)
    requires
        sound(menu, at),
        at.phase is Asking,
        !refused(menu, at, text, float),
    ensures
        ({
            let item = level(menu.items@, at.trail)[at.phase->Asking_index as int];
            let after = after_line(menu, at, text, float);
            &&& countable(menu, at, text, float)
            &&& sound(menu, after.0)
            &&& after.0.path == at.path
            &&& after.1 == Move::Done(
                Choice {
                    name: item.label(),
                    path: at.path,
                    value: reads(item.prompt()->0, text, float),
                    attempt: Some(at.phase->Asking_attempt),
                },
            )
        }),
{
}

/// A line that does not read as the kind asked for is counted and asked
/// for again: the attempt goes up by one, and the path, the level and the
/// cursor stay as they were.
pub proof fn law_refused_line(menu: Menu, at: Position, text: Seq<char>, float: Option<u64>)
    requires
        sound(menu, at),
        refused(menu, at, text, float),
        countable(menu, at, text, float),
    ensures
        ({
            let after = after_line(menu, at, text, float);
            &&& after.1 is Retry
            &&& sound(menu, after.0)
            &&& after.0.path == at.path
            &&& after.0.trail == at.trail
            &&& after.0.hover == at.hover
            &&& after.0.phase == Phase::Asking {
                index: at.phase->Asking_index,
                attempt: (at.phase->Asking_attempt + 1) as i32,
            }
            &&& after.0.phase->Asking_attempt > at.phase->Asking_attempt
        }),
{
}

/// The position after a run of lines, each taken in turn.
pub open spec fn after_lines(menu: Menu, at: Position, replies: Seq<Reply>) -> Position
    decreases replies.len(),
{
    if replies.len() == 0 {
        at
    } else {
        after_lines(
            menu,
            after_line(menu, at, replies[0].text@, replies[0].float).0,
            replies.drop_first(),
        )
    }
}

/// However many lines are refused, each is counted once and none touches
/// the path, the level or the cursor; the line accepted after them ends the
/// traversal with the number of all the lines read.
pub proof fn law_counted_lines(menu: Menu, at: Position, replies: Seq<Reply>, last: Reply)
    requires
        sound(menu, at),
        at.phase matches Phase::Asking { attempt, .. } && attempt + replies.len() <= i32::MAX,
        forall|i: int|
            0 <= i < replies.len() ==> reads(
                level(menu.items@, at.trail)[at.phase->Asking_index as int].prompt()->0,
                (#[trigger] replies[i]).text@,
                replies[i].float,
            ).is_none(),
        reads(
            level(menu.items@, at.trail)[at.phase->Asking_index as int].prompt()->0,
            last.text@,
            last.float,
        ) is Some,
    ensures
        ({
            let item = level(menu.items@, at.trail)[at.phase->Asking_index as int];
            let count = (at.phase->Asking_attempt + replies.len()) as i32;
            let asking = after_lines(menu, at, replies);
            &&& sound(menu, asking)
            &&& asking == Position {
                trail: at.trail,
                path: at.path,
                hover: at.hover,
                phase: Phase::Asking { index: at.phase->Asking_index, attempt: count },
            }
            &&& after_line(menu, asking, last.text@, last.float).1 == Move::Done(
                Choice {
                    name: item.label(),
                    path: at.path,
                    value: reads(item.prompt()->0, last.text@, last.float),
                    attempt: Some(count),
                },
            )
        }),
    decreases replies.len(),
{
    if replies.len() > 0 {
        let next = after_line(menu, at, replies[0].text@, replies[0].float).0;
        let rest = replies.drop_first();
        assert forall|i: int| 0 <= i < rest.len() implies reads(
            level(menu.items@, next.trail)[next.phase->Asking_index as int].prompt()->0,
            (#[trigger] rest[i]).text@,
            rest[i].float,
        ).is_none() by {
            assert(rest[i] == replies[i + 1]);
        }
        law_counted_lines(menu, next, rest, last);
    }
}

/// Every input that can be taken leaves the traversal at a position of
/// the menu.
pub proof fn law_stays_sound(menu: Menu, at: Position, input: Input)
    requires
        sound(menu, at),
        admitted(menu, at, input),
    ensures
        sound(menu, fed(menu, at, input).0),
{
    let shown = level(menu.items@, at.trail);
    let after = fed(menu, at, input).0;
    match input {
        Input::Press(press) => {
            if at.phase is Browsing && key_of(press) is Some {
                let key = key_of(press)->0;
                lemma_scan(folded(shown), key, at.hover, 0);
                lemma_level_fits(menu, at.trail);
                if key == Stroke::Back && at.trail.len() > 0 {
                    assert(menu.crumbs(at.trail.drop_last()) =~= menu.crumbs(at.trail).drop_last());
                } else if chosen(folded(shown), key, at.hover) is Some {
                    let index = chosen(folded(shown), key, at.hover)->0;
                    if shown[index].is_sub() {
                        let longer = at.trail.push(index as usize);
                        assert(longer.drop_last() =~= at.trail);
                        assert(menu.crumbs(longer) =~= menu.crumbs(at.trail).push(
                            shown[index].label(),
                        ));
                    }
                }
            }
        },
        Input::Line(reply) => {},
    }
}

/// Entering a sub-menu and going back at once is as if neither key had
/// been pressed, but for the cursor, which stands on the first item: the
/// traversal ends as the rest of the inputs end it from there.
pub proof fn law_visit_undone(
    menu: Menu,
    at: Position,
    enter: Input,
    back: Input,
    rest: Seq<Input>,
)
    requires
        sound(menu, at),
        fed(menu, at, enter).1 is Descend,
        back matches Input::Press(press) && (press == KeyPress::Backspace || press
            == KeyPress::Left),
    ensures
        replay(menu, at, seq![enter, back] + rest) == replay(
            menu,
            Position { trail: at.trail, path: at.path, hover: 0, phase: Phase::Browsing },
            rest,
        ),
{
    let inputs = seq![enter, back] + rest;
    let inside = fed(menu, at, enter).0;
    assert(inputs[0] == enter);
    assert(inputs.drop_first() =~= seq![back] + rest);
    assert(inputs.drop_first()[0] == back);
    assert(inputs.drop_first().drop_first() =~= rest);
    match enter {
        Input::Press(press) => {
            law_round_trip(menu, at, key_of(press));
        },
        Input::Line(reply) => {},
    }
    reveal_with_fuel(replay, 3);
}

/// The path down to a level begins with the path down to each level
/// above it.
pub proof fn lemma_crumbs_prefix(menu: Menu, trail: Seq<usize>, depth: int)
    requires
        0 <= depth <= trail.len(),
    ensures
        menu.crumbs(trail).len() == trail.len() + 1,
        menu.crumbs(trail).take(depth + 1) == menu.crumbs(trail.take(depth)),
    decreases trail.len(),
{
    if trail.len() == 0 {
        assert(trail.take(depth) =~= trail);
        assert(menu.crumbs(trail).take(depth + 1) =~= menu.crumbs(trail));
    } else {
        let shorter = trail.drop_last();
        lemma_crumbs_prefix(menu, shorter, if depth < trail.len() {
            depth
        } else {
            0
        });
        assert(names(menu.items@, trail).len() == trail.len());
        if depth < trail.len() {
            assert(shorter.take(depth) =~= trail.take(depth));
            assert(menu.crumbs(trail).take(depth + 1) =~= menu.crumbs(shorter).take(depth + 1));
        } else {
            assert(trail.take(depth) =~= trail);
            assert(menu.crumbs(trail).take(depth + 1) =~= menu.crumbs(trail));
        }
    }
}

/// How a visit to a level ends.
pub enum Visit {
    /// With a selection.
    Selected(Choice),
    /// With the exit key.
    Exited,
    /// With the `Back` that left the level, at the position above it.
    Backed(Position),
    /// With the inputs run out, at the position reached.
    Pending(Position),
    /// At a level without items.
    Empty(Position),
}

/// How the visit to the level `depth` sub-menus down ends, for a traversal
/// that stands at `at`, in that level or below it, and is given `inputs` in
/// order: as the traversal itself ends, or with the `Back` that leaves the
/// level.
pub open spec fn visit(menu: Menu, at: Position, inputs: Seq<Input>, depth: nat) -> Visit
    decreases inputs.len(),
{
    if at.phase is Empty {
        Visit::Empty(at)
    } else if inputs.len() == 0 {
        Visit::Pending(at)
    } else {
        let after = fed(menu, at, inputs[0]);
        match after.1 {
            Move::Done(choice) => Visit::Selected(choice),
            Move::Exit => Visit::Exited,
            Move::Back => if at.trail.len() == depth {
                Visit::Backed(after.0)
            } else {
                visit(menu, after.0, inputs.drop_first(), depth)
            },
            _ => visit(menu, after.0, inputs.drop_first(), depth),
        }
    }
}

/// Throughout a visit to a level the path begins with the path down to
/// that level. A selection made during the visit has a path that begins so
/// and is longer; the `Back` that ends the visit leaves the path down to
/// the level above; and where the visit has not ended, the traversal is
/// still in the level or below it.
pub proof fn law_visit(menu: Menu, at: Position, inputs: Seq<Input>, depth: nat)
    requires
        sound(menu, at),
        depth <= at.trail.len(),
        all_admitted(menu, at, inputs),
    ensures
        ({
            let entry = at.trail.take(depth as int);
            let base = menu.crumbs(entry);
            match visit(menu, at, inputs, depth) {
                Visit::Selected(choice) => {
                    &&& choice.path.len() > base.len()
                    &&& choice.path.take(base.len() as int) == base
                },
                Visit::Exited => true,
                Visit::Backed(above) => {
                    &&& depth > 0
                    &&& sound(menu, above)
                    &&& above.phase is Browsing
                    &&& above.trail == entry.drop_last()
                    &&& above.path == base.drop_last()
                },
                Visit::Pending(end) | Visit::Empty(end) => {
                    &&& sound(menu, end)
                    &&& depth <= end.trail.len()
                    &&& end.trail.take(depth as int) == entry
                    &&& end.path.len() >= base.len()
                    &&& end.path.take(base.len() as int) == base
                },
            }
        }),
    decreases inputs.len(),
{
    let entry = at.trail.take(depth as int);
    let base = menu.crumbs(entry);
    let shown = level(menu.items@, at.trail);
    lemma_crumbs_prefix(menu, at.trail, depth as int);
    lemma_crumbs_prefix(menu, entry, depth as int);
    let crumbs = menu.crumbs(at.trail);
    assert(at.path.len() >= base.len() && at.path.take(base.len() as int) =~= base) by {
        if at.path != crumbs {
            assert(at.path.drop_last() =~= crumbs);
            assert(at.path.take(base.len() as int) =~= crumbs.take(base.len() as int));
        }
    }
    if !(at.phase is Empty) && inputs.len() > 0 {
        let after = fed(menu, at, inputs[0]);
        law_stays_sound(menu, at, inputs[0]);
        match after.1 {
            Move::Done(choice) => {
                law_selection_path(menu, at, inputs[0]);
                assert(choice.path.take(base.len() as int) =~= crumbs.take(base.len() as int));
            },
            Move::Exit => {},
            Move::Back => {
                assert(after.0.trail == at.trail.drop_last());
                if at.trail.len() == depth {
                    assert(entry =~= at.trail);
                } else {
                    assert(after.0.trail.take(depth as int) =~= entry);
                    law_visit(menu, after.0, inputs.drop_first(), depth);
                }
            },
            _ => {
                assert(after.0.trail.len() >= at.trail.len());
                assert(after.0.trail.take(depth as int) =~= entry);
                law_visit(menu, after.0, inputs.drop_first(), depth);
            },
        }
    }
}

} // verus!
