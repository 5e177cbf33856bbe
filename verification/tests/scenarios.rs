use rushterm::{
    Input, Item, KeyPress, Menu, Navigator, Outcome, Phase, Reply, Selection, Step, Value,
};

fn text(s: &str) -> String {
    s.to_string()
}

fn action(name: &str, hotkey: Option<char>) -> Item {
    Item::Action { name: text(name), hotkey, exp: None }
}

fn root(esc: bool) -> Menu {
    Menu {
        name: text("Root"),
        exp: None,
        items: vec![
            action("A0", Some('a')),
            Item::SubMenu {
                name: text("S0"),
                hotkey: None,
                exp: None,
                items: vec![action("SA0", Some('a'))],
            },
        ],
        esc,
    }
}

fn line(s: &str) -> Input {
    Input::Line(Reply { text: text(s), float: s.parse::<f64>().ok().map(f64::to_bits) })
}

fn key(c: char) -> Input {
    Input::Press(KeyPress::Char(c))
}

fn a0() -> Selection {
    Selection { name: text("A0"), path: vec![text("Root"), text("A0")], value: None, attempt: None }
}

#[test]
fn hotkey_at_root_selects_the_action() {
    assert_eq!(root(true).run(&vec![key('a')]), Ok(a0()));
}

#[test]
fn back_from_a_sub_menu_leaves_no_trace_in_the_path() {
    let inputs = vec![key('1'), Input::Press(KeyPress::Backspace), key('a')];
    assert_eq!(root(true).run(&inputs), Ok(a0()));
}

#[test]
fn hotkey_inside_a_sub_menu_selects_there() {
    let inputs = vec![key('1'), key('a')];
    assert_eq!(
        root(true).run(&inputs),
        Ok(Selection {
            name: text("SA0"),
            path: vec![text("Root"), text("S0"), text("SA0")],
            value: None,
            attempt: None,
        })
    );
}

#[test]
fn exit_where_it_is_not_allowed_changes_nothing() {
    let menu = root(false);
    let mut nav = Navigator::new(&menu);
    assert_eq!(nav.feed(&menu, &Input::Press(KeyPress::Down)), Step::Rerender);
    let before = Navigator {
        trail: nav.trail.clone(),
        path: nav.path.clone(),
        hover: nav.hover,
        phase: nav.phase,
    };
    assert_eq!(nav.feed(&menu, &Input::Press(KeyPress::Esc)), Step::Ignore);
    assert_eq!(nav, before);
    assert_eq!(nav.hover, 1);
    assert_eq!(nav.phase, Phase::Browsing);
    assert_eq!(nav.path, vec![text("Root")]);
    assert_eq!(menu.run(&vec![Input::Press(KeyPress::Esc)]), Err(Outcome::Pending));
}

#[test]
fn exit_where_it_is_allowed_ends_the_traversal() {
    assert_eq!(root(true).run(&vec![Input::Press(KeyPress::Esc), key('a')]), Err(Outcome::Exited));
}

#[test]
fn exit_inside_a_sub_menu_ends_the_traversal() {
    assert_eq!(root(true).run(&vec![key('1'), Input::Press(KeyPress::Esc)]), Err(Outcome::Exited));
    assert_eq!(root(false).run(&vec![key('1'), Input::Press(KeyPress::Esc)]), Err(Outcome::Pending));
}

#[test]
fn back_at_the_root_is_ignored() {
    let menu = root(true);
    let mut nav = Navigator::new(&menu);
    assert_eq!(nav.feed(&menu, &Input::Press(KeyPress::Backspace)), Step::Ignore);
    assert_eq!(nav.feed(&menu, &Input::Press(KeyPress::Left)), Step::Ignore);
    assert_eq!(nav.path, vec![text("Root")]);
    assert!(nav.trail.is_empty());
}

#[test]
fn a_number_is_asked_for_until_a_line_reads_as_one() {
    let menu = Menu {
        name: text("Root"),
        exp: None,
        items: vec![Item::I64 { name: text("Count"), hotkey: Some('c'), exp: None }],
        esc: true,
    };
    let inputs = vec![key('c'), line("abc"), line("42")];
    assert_eq!(
        menu.run(&inputs),
        Ok(Selection {
            name: text("Count"),
            path: vec![text("Root"), text("Count")],
            value: Some(Value::I64(42)),
            attempt: Some(2),
        })
    );
}

#[test]
fn a_refused_line_raises_the_attempt_and_keeps_the_path() {
    let menu = Menu {
        name: text("Root"),
        exp: None,
        items: vec![Item::U64 { name: text("Size"), hotkey: None, exp: None }],
        esc: true,
    };
    let mut nav = Navigator::new(&menu);
    assert_eq!(nav.feed(&menu, &Input::Press(KeyPress::Enter)), Step::Prompt);
    assert_eq!(nav.phase, Phase::Asking { index: 0, attempt: 1 });
    let path = nav.path.clone();
    assert_eq!(path, vec![text("Root"), text("Size")]);
    assert_eq!(nav.feed(&menu, &line("-1")), Step::Retry);
    assert_eq!(nav.phase, Phase::Asking { index: 0, attempt: 2 });
    assert_eq!(nav.path, path);
    assert_eq!(nav.feed(&menu, &line("")), Step::Retry);
    assert_eq!(nav.phase, Phase::Asking { index: 0, attempt: 3 });
    assert_eq!(nav.path, path);
    assert_eq!(
        nav.feed(&menu, &line("7")),
        Step::Done(Selection {
            name: text("Size"),
            path: path.clone(),
            value: Some(Value::U64(7)),
            attempt: Some(3),
        })
    );
    assert_eq!(nav.path, path);
    assert_eq!(nav.phase, Phase::Selected { index: 0 });
}

#[test]
fn selecting_an_action_puts_its_name_on_the_path() {
    let menu = root(true);
    let mut nav = Navigator::new(&menu);
    assert_eq!(nav.path, vec![text("Root")]);
    assert_eq!(nav.feed(&menu, &key('a')), Step::Done(a0()));
    assert_eq!(nav.path, vec![text("Root"), text("A0")]);
    assert_eq!(nav.phase, Phase::Selected { index: 0 });
    assert!(nav.trail.is_empty());
    let mut nav = Navigator::new(&menu);
    nav.feed(&menu, &key('1'));
    nav.feed(&menu, &Input::Press(KeyPress::Enter));
    assert_eq!(nav.path, vec![text("Root"), text("S0"), text("SA0")]);
    assert_eq!(nav.trail, vec![1]);
}

#[test]
fn nothing_moves_a_traversal_that_has_ended() {
    let menu = root(true);
    let mut nav = Navigator::new(&menu);
    nav.feed(&menu, &key('a'));
    for input in [key('1'), Input::Press(KeyPress::Backspace), Input::Press(KeyPress::Esc), line("x")] {
        assert_eq!(nav.feed(&menu, &input), Step::Ignore);
        assert_eq!(nav.path, vec![text("Root"), text("A0")]);
        assert_eq!(nav.phase, Phase::Selected { index: 0 });
    }
    let mut nav = Navigator::new(&menu);
    assert_eq!(nav.feed(&menu, &Input::Press(KeyPress::Esc)), Step::Exit);
    assert_eq!(nav.phase, Phase::Exited);
    assert_eq!(nav.feed(&menu, &key('a')), Step::Ignore);
    assert_eq!(nav.path, vec![text("Root")]);
}

#[test]
fn a_menu_without_items_fails_at_once() {
    let menu = Menu { name: text("Root"), exp: None, items: vec![], esc: true };
    assert_eq!(menu.run(&vec![]), Err(Outcome::Empty));
    assert_eq!(menu.run(&vec![Input::Press(KeyPress::Esc)]), Err(Outcome::Empty));
    assert_eq!(menu.run(&vec![key('0'), line("x")]), Err(Outcome::Empty));
    let mut nav = Navigator::new(&menu);
    assert_eq!(nav.phase, Phase::Empty);
    assert_eq!(nav.feed(&menu, &Input::Press(KeyPress::Enter)), Step::Ignore);
}

#[test]
fn a_sub_menu_without_items_fails_when_it_is_entered() {
    let menu = Menu {
        name: text("Root"),
        exp: None,
        items: vec![
            action("A0", Some('a')),
            Item::SubMenu { name: text("Void"), hotkey: Some('v'), exp: None, items: vec![] },
        ],
        esc: true,
    };
    assert_eq!(menu.run(&vec![key('v')]), Err(Outcome::Empty));
    assert_eq!(menu.run(&vec![key('v'), Input::Press(KeyPress::Backspace), key('a')]), Err(Outcome::Empty));
    assert_eq!(menu.run(&vec![Input::Press(KeyPress::Down)]), Err(Outcome::Pending));
    let mut nav = Navigator::new(&menu);
    assert_eq!(nav.feed(&menu, &key('1')), Step::Fail);
    assert_eq!(nav.phase, Phase::Empty);
    assert_eq!(nav.path, vec![text("Root"), text("Void")]);
    assert_eq!(nav.trail, vec![1]);
    assert_eq!(nav.feed(&menu, &Input::Press(KeyPress::Backspace)), Step::Ignore);
}

#[test]
fn a_line_that_reads_is_taken_at_any_attempt() {
    let menu = Menu {
        name: text("Root"),
        exp: None,
        items: vec![Item::Char { name: text("Letter"), hotkey: None, exp: None }],
        esc: true,
    };
    let mut nav = Navigator::new(&menu);
    nav.feed(&menu, &Input::Press(KeyPress::Enter));
    nav.phase = Phase::Asking { index: 0, attempt: i32::MAX - 1 };
    assert!(nav.admits(&menu, &Reply { text: text("no"), float: None }));
    assert_eq!(nav.feed(&menu, &line("no")), Step::Retry);
    assert_eq!(nav.phase, Phase::Asking { index: 0, attempt: i32::MAX });
    assert!(!nav.admits(&menu, &Reply { text: text("no"), float: None }));
    assert!(!nav.admits(&menu, &Reply { text: text(""), float: None }));
    assert!(nav.admits(&menu, &Reply { text: text(" "), float: None }));
    assert_eq!(
        nav.feed(&menu, &line(" ")),
        Step::Done(Selection {
            name: text("Letter"),
            path: vec![text("Root"), text("Letter")],
            value: Some(Value::Char(' ')),
            attempt: Some(i32::MAX),
        })
    );
}

#[test]
fn keys_are_ignored_while_a_prompt_asks_and_lines_while_none_does() {
    let menu = Menu {
        name: text("Root"),
        exp: None,
        items: vec![Item::Bool { name: text("Sure"), hotkey: None, exp: None }],
        esc: true,
    };
    let inputs = vec![
        line("true"),
        key('0'),
        Input::Press(KeyPress::Esc),
        Input::Press(KeyPress::Backspace),
        line("yes"),
        line("false"),
    ];
    assert_eq!(
        menu.run(&inputs),
        Ok(Selection {
            name: text("Sure"),
            path: vec![text("Root"), text("Sure")],
            value: Some(Value::Bool(false)),
            attempt: Some(2),
        })
    );
}

#[test]
fn inputs_that_run_out_leave_the_traversal_pending() {
    assert_eq!(root(true).run(&vec![]), Err(Outcome::Pending));
    assert_eq!(root(true).run(&vec![key('z'), key('1')]), Err(Outcome::Pending));
}

#[test]
fn a_floating_point_prompt_takes_the_reading_the_reply_carries() {
    let menu = Menu {
        name: text("Root"),
        exp: None,
        items: vec![Item::F64 { name: text("Ratio"), hotkey: Some('r'), exp: None }],
        esc: true,
    };
    let inputs = vec![key('R'), line("one half"), line("0.5")];
    assert_eq!(
        menu.run(&inputs),
        Ok(Selection {
            name: text("Ratio"),
            path: vec![text("Root"), text("Ratio")],
            value: Some(Value::F64(0.5f64.to_bits())),
            attempt: Some(2),
        })
    );
}

#[test]
fn a_run_stops_where_a_refused_line_cannot_be_counted() {
    let menu = Menu {
        name: text("Root"),
        exp: None,
        items: vec![Item::I64 { name: text("Count"), hotkey: Some('c'), exp: None }],
        esc: true,
    };
    let inputs = vec![key('c'), line("abc"), line("42")];
    assert_eq!(menu.try_run(&inputs), Some(menu.run(&inputs)));
    assert_eq!(menu.try_run(&vec![]), Some(Err(Outcome::Pending)));
    assert_eq!(root(true).try_run(&vec![key('a')]), Some(Ok(a0())));
}
