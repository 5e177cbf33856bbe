use rushterm::engine::{hotkeys, select};
use rushterm::key::match_keycode;
use rushterm::{Input, Item, Key, KeyPress, Menu, Navigator, Phase, Selection, Step};

fn text(s: &str) -> String {
    s.to_string()
}

fn action(name: &str, hotkey: Option<char>) -> Item {
    Item::Action { name: text(name), hotkey, exp: None }
}

fn sub(name: &str, hotkey: Option<char>, items: Vec<Item>) -> Item {
    Item::SubMenu { name: text(name), hotkey, exp: None, items }
}

fn tree() -> Menu {
    Menu {
        name: text("Main"),
        exp: Some(text("pick one")),
        items: vec![
            action("Open", Some('o')),
            action("Close", None),
            sub(
                "More",
                Some('M'),
                vec![
                    action("Copy", Some('c')),
                    sub("Deep", Some('d'), vec![action("Leaf", Some('l')), action("Twig", None)]),
                ],
            ),
            Item::Char { name: text("Letter"), hotkey: Some('l'), exp: None },
        ],
        esc: true,
    }
}

fn press(nav: &mut Navigator, menu: &Menu, press: KeyPress) -> Step {
    nav.feed(menu, &Input::Press(press))
}

#[test]
fn key_presses_map_to_logical_keys() {
    assert_eq!(match_keycode(KeyPress::Up), Some(Key::Up));
    assert_eq!(match_keycode(KeyPress::Down), Some(Key::Down));
    assert_eq!(match_keycode(KeyPress::Enter), Some(Key::Enter));
    assert_eq!(match_keycode(KeyPress::Right), Some(Key::Enter));
    assert_eq!(match_keycode(KeyPress::Esc), Some(Key::Exit));
    assert_eq!(match_keycode(KeyPress::Backspace), Some(Key::Back));
    assert_eq!(match_keycode(KeyPress::Left), Some(Key::Back));
    assert_eq!(match_keycode(KeyPress::Other), None);
}

#[test]
fn a_character_key_is_put_in_lower_case() {
    assert_eq!(match_keycode(KeyPress::Char('Q')), Some(Key::Char(text("q"))));
    assert_eq!(match_keycode(KeyPress::Char('q')), Some(Key::Char(text("q"))));
    assert_eq!(match_keycode(KeyPress::Char('7')), Some(Key::Char(text("7"))));
    assert_eq!(match_keycode(KeyPress::Char('É')), Some(Key::Char(text("é"))));
}

#[test]
fn hotkeys_are_put_in_lower_case() {
    let menu = tree();
    assert_eq!(hotkeys(&menu.items), vec![Some(text("o")), None, Some(text("m")), Some(text("l"))]);
}

#[test]
fn the_cursor_stays_among_the_items() {
    let menu = tree();
    let mut nav = Navigator::new(&menu);
    assert_eq!(nav.hover, 0);
    assert_eq!(press(&mut nav, &menu, KeyPress::Up), Step::Ignore);
    assert_eq!(nav.hover, 0);
    for expected in 1..4usize {
        assert_eq!(press(&mut nav, &menu, KeyPress::Down), Step::Rerender);
        assert_eq!(nav.hover, expected);
    }
    assert_eq!(press(&mut nav, &menu, KeyPress::Down), Step::Ignore);
    assert_eq!(nav.hover, 3);
    assert_eq!(press(&mut nav, &menu, KeyPress::Up), Step::Rerender);
    assert_eq!(nav.hover, 2);
    for round in 0..20usize {
        let step = if round % 3 == 0 { KeyPress::Up } else { KeyPress::Down };
        press(&mut nav, &menu, step);
        assert!(nav.hover < 4);
    }
    assert!(nav.trail.is_empty());
    assert_eq!(nav.path, vec![text("Main")]);
}

#[test]
fn number_hotkey_and_enter_select_the_same_item() {
    let menu = tree();
    let by_number = menu.run(&vec![Input::Press(KeyPress::Char('0'))]);
    let by_hotkey = menu.run(&vec![Input::Press(KeyPress::Char('o'))]);
    let by_capital = menu.run(&vec![Input::Press(KeyPress::Char('O'))]);
    let by_enter = menu.run(&vec![Input::Press(KeyPress::Enter)]);
    let by_right = menu.run(&vec![Input::Press(KeyPress::Right)]);
    let open = Ok(Selection {
        name: text("Open"),
        path: vec![text("Main"), text("Open")],
        value: None,
        attempt: None,
    });
    assert_eq!(by_number, open);
    assert_eq!(by_hotkey, open);
    assert_eq!(by_capital, open);
    assert_eq!(by_enter, open);
    assert_eq!(by_right, open);
}

#[test]
fn enter_selects_the_item_under_the_cursor() {
    let menu = tree();
    let inputs = vec![Input::Press(KeyPress::Down), Input::Press(KeyPress::Enter)];
    assert_eq!(
        menu.run(&inputs),
        Ok(Selection {
            name: text("Close"),
            path: vec![text("Main"), text("Close")],
            value: None,
            attempt: None,
        })
    );
}

#[test]
fn a_hotkey_written_in_upper_case_answers_to_either_case() {
    let menu = tree();
    let mut nav = Navigator::new(&menu);
    assert_eq!(press(&mut nav, &menu, KeyPress::Char('m')), Step::Descend);
    assert_eq!(nav.trail, vec![2]);
    let mut nav = Navigator::new(&menu);
    assert_eq!(press(&mut nav, &menu, KeyPress::Char('M')), Step::Descend);
    assert_eq!(nav.trail, vec![2]);
}

#[test]
fn descent_and_back_round_trip() {
    let menu = tree();
    let mut nav = Navigator::new(&menu);
    press(&mut nav, &menu, KeyPress::Down);
    assert_eq!(press(&mut nav, &menu, KeyPress::Char('2')), Step::Descend);
    assert_eq!(nav.path, vec![text("Main"), text("More")]);
    assert_eq!(nav.trail, vec![2]);
    assert_eq!(nav.hover, 0);
    assert_eq!(press(&mut nav, &menu, KeyPress::Char('d')), Step::Descend);
    assert_eq!(nav.path, vec![text("Main"), text("More"), text("Deep")]);
    assert_eq!(nav.trail, vec![2, 1]);
    press(&mut nav, &menu, KeyPress::Down);
    assert_eq!(nav.hover, 1);
    assert_eq!(press(&mut nav, &menu, KeyPress::Backspace), Step::Back);
    assert_eq!(nav.path, vec![text("Main"), text("More")]);
    assert_eq!(nav.trail, vec![2]);
    assert_eq!(nav.hover, 0);
    assert_eq!(press(&mut nav, &menu, KeyPress::Char('1')), Step::Descend);
    assert_eq!(nav.path, vec![text("Main"), text("More"), text("Deep")]);
    assert_eq!(press(&mut nav, &menu, KeyPress::Left), Step::Back);
    assert_eq!(press(&mut nav, &menu, KeyPress::Left), Step::Back);
    assert_eq!(nav.path, vec![text("Main")]);
    assert!(nav.trail.is_empty());
    assert_eq!(press(&mut nav, &menu, KeyPress::Left), Step::Ignore);
}

#[test]
fn a_selection_deep_in_the_tree_names_every_level() {
    let menu = tree();
    let inputs = vec![
        Input::Press(KeyPress::Char('m')),
        Input::Press(KeyPress::Char('D')),
        Input::Press(KeyPress::Down),
        Input::Press(KeyPress::Enter),
    ];
    assert_eq!(
        menu.run(&inputs),
        Ok(Selection {
            name: text("Twig"),
            path: vec![text("Main"), text("More"), text("Deep"), text("Twig")],
            value: None,
            attempt: None,
        })
    );
}

#[test]
fn a_typed_item_starts_asking() {
    let menu = tree();
    let mut nav = Navigator::new(&menu);
    assert_eq!(press(&mut nav, &menu, KeyPress::Char('3')), Step::Prompt);
    assert_eq!(nav.phase, Phase::Asking { index: 3, attempt: 1 });
    assert_eq!(nav.path, vec![text("Main"), text("Letter")]);
    assert!(nav.trail.is_empty());
}

#[test]
fn the_first_item_that_answers_wins() {
    let table = vec![Some(text("x")), Some(text("1")), Some(text("x")), None];
    assert_eq!(select(&table, &Key::Char(text("x")), 3), Some(0));
    assert_eq!(select(&table, &Key::Char(text("1")), 3), Some(1));
    assert_eq!(select(&table, &Key::Char(text("2")), 3), Some(2));
    assert_eq!(select(&table, &Key::Char(text("3")), 0), Some(3));
    assert_eq!(select(&table, &Key::Char(text("4")), 0), None);
    assert_eq!(select(&table, &Key::Char(text("X")), 0), None);
    assert_eq!(select(&table, &Key::Enter, 2), Some(2));
    assert_eq!(select(&table, &Key::Enter, 4), None);
    assert_eq!(select(&table, &Key::Up, 0), None);
    assert_eq!(select(&table, &Key::Down, 0), None);
    assert_eq!(select(&table, &Key::Back, 0), None);
    assert_eq!(select(&table, &Key::Exit, 0), None);
    let shadowed = vec![Some(text("1")), Some(text("b"))];
    assert_eq!(select(&shadowed, &Key::Char(text("1")), 0), Some(0));
}

#[test]
fn a_position_of_two_digits_is_matched_as_text() {
    let table: Vec<Option<String>> = (0..12).map(|_| None).collect();
    assert_eq!(select(&table, &Key::Char(text("11")), 0), Some(11));
    assert_eq!(select(&table, &Key::Char(text("01")), 0), None);
    assert_eq!(select(&table, &Key::Char(text("+1")), 0), None);
    assert_eq!(select(&table, &Key::Char(text("12")), 0), None);
}
