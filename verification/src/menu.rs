//! The menu tree: a menu owns an ordered list of items, and a sub-menu item
//! owns a nested list of its own.

use vstd::prelude::*;

verus! {

/// Anything that can be listed in a `Menu`.
#[derive(Debug)]
pub enum Item {
    /// Ends the traversal with this item as the selection.
    Action { name: String, hotkey: Option<char>, exp: Option<String> },
    /// Opens a nested list of items.
    SubMenu { name: String, hotkey: Option<char>, exp: Option<String>, items: Vec<Item> },
    /// Asks for a `bool`.
    Bool { name: String, hotkey: Option<char>, exp: Option<String> },
    /// Asks for a single character.
    Char { name: String, hotkey: Option<char>, exp: Option<String> },
    /// Asks for a line of text.
    String { name: String, hotkey: Option<char>, exp: Option<String> },
    /// Asks for a floating-point number.
    F64 { name: String, hotkey: Option<char>, exp: Option<String> },
    /// Asks for a signed integer.
    I64 { name: String, hotkey: Option<char>, exp: Option<String> },
    /// Asks for an unsigned integer.
    U64 { name: String, hotkey: Option<char>, exp: Option<String> },
}

/// The scalar kinds a typed prompt can ask for.
#[derive(Clone, Copy, Debug, PartialEq, Eq, Structural)]
pub enum Kind {
    Bool,
    Char,
    String,
    F64,
    I64,
    U64,
}

/// Starting point of a menu: the root of the tree.
#[derive(Debug)]
pub struct Menu {
    /// Shown at the top, and the first element of every path.
    pub name: String,
    /// Optional explanation shown next to the name.
    pub exp: Option<String>,
    /// The items of the root level, in display order.
    pub items: Vec<Item>,
    /// Whether the exit key ends the traversal.
    pub esc: bool,
}

impl Item {
    /// The item's name.
    pub open spec fn label(self) -> Seq<char> {
        match self {
            Item::Action { name, .. } => name@,
            Item::SubMenu { name, .. } => name@,
            Item::Bool { name, .. } => name@,
            Item::Char { name, .. } => name@,
            Item::String { name, .. } => name@,
            Item::F64 { name, .. } => name@,
            Item::I64 { name, .. } => name@,
            Item::U64 { name, .. } => name@,
        }
    }

    /// The item's hotkey, if it has one.
    pub open spec fn key(self) -> Option<char> {
        match self {
            Item::Action { hotkey, .. } => hotkey,
            Item::SubMenu { hotkey, .. } => hotkey,
            Item::Bool { hotkey, .. } => hotkey,
            Item::Char { hotkey, .. } => hotkey,
            Item::String { hotkey, .. } => hotkey,
            Item::F64 { hotkey, .. } => hotkey,
            Item::I64 { hotkey, .. } => hotkey,
            Item::U64 { hotkey, .. } => hotkey,
        }
    }

    /// The item's explanation, if it has one.
    pub open spec fn note(self) -> Option<Seq<char>> {
        let exp = match self {
            Item::Action { exp, .. } => exp,
            Item::SubMenu { exp, .. } => exp,
            Item::Bool { exp, .. } => exp,
            Item::Char { exp, .. } => exp,
            Item::String { exp, .. } => exp,
            Item::F64 { exp, .. } => exp,
            Item::I64 { exp, .. } => exp,
            Item::U64 { exp, .. } => exp,
        };
        match exp {
            Some(text) => Some(text@),
            None => None,
        }
    }

    /// The kind of value a typed prompt asks for; `None` for an action or a
    /// sub-menu.
    pub open spec fn prompt(self) -> Option<Kind> {
        match self {
            Item::Action { .. } => None,
            Item::SubMenu { .. } => None,
            Item::Bool { .. } => Some(Kind::Bool),
            Item::Char { .. } => Some(Kind::Char),
            Item::String { .. } => Some(Kind::String),
            Item::F64 { .. } => Some(Kind::F64),
            Item::I64 { .. } => Some(Kind::I64),
            Item::U64 { .. } => Some(Kind::U64),
        }
    }

    /// Whether the item opens a nested list.
    pub open spec fn is_sub(self) -> bool {
        self is SubMenu
    }

    /// The nested items of a sub-menu; empty for any other item.
    pub open spec fn children(self) -> Seq<Item> {
        match self {
            Item::SubMenu { items, .. } => items@,
            _ => Seq::empty(),
        }
    }

    /// The item's name.
    pub fn name(&self) -> (name: &String)
        ensures
            name@ == self.label(),
    {
        match self {
            Item::Action { name, .. } => name,
            Item::SubMenu { name, .. } => name,
            Item::Bool { name, .. } => name,
            Item::Char { name, .. } => name,
            Item::String { name, .. } => name,
            Item::F64 { name, .. } => name,
            Item::I64 { name, .. } => name,
            Item::U64 { name, .. } => name,
        }
    }

    /// The item's hotkey, if it has one.
    pub fn hotkey(&self) -> (hotkey: Option<char>)
        ensures
            hotkey == self.key(),
    {
        match self {
            Item::Action { hotkey, .. } => *hotkey,
            Item::SubMenu { hotkey, .. } => *hotkey,
            Item::Bool { hotkey, .. } => *hotkey,
            Item::Char { hotkey, .. } => *hotkey,
            Item::String { hotkey, .. } => *hotkey,
            Item::F64 { hotkey, .. } => *hotkey,
            Item::I64 { hotkey, .. } => *hotkey,
            Item::U64 { hotkey, .. } => *hotkey,
        }
    }

    /// The item's explanation, if it has one.
    pub fn exp(&self) -> (exp: &Option<String>)
        ensures
            match *exp {
                Some(text) => self.note() == Some(text@),
                None => self.note().is_none(),
            },
    {
        match self {
            Item::Action { exp, .. } => exp,
            Item::SubMenu { exp, .. } => exp,
            Item::Bool { exp, .. } => exp,
            Item::Char { exp, .. } => exp,
            Item::String { exp, .. } => exp,
            Item::F64 { exp, .. } => exp,
            Item::I64 { exp, .. } => exp,
            Item::U64 { exp, .. } => exp,
        }
    }

    /// The kind of value the item asks for, if it is a typed prompt.
    pub fn kind(&self) -> (kind: Option<Kind>)
        ensures
            kind == self.prompt(),
    {
        match self {
            Item::Action { .. } => None,
            Item::SubMenu { .. } => None,
            Item::Bool { .. } => Some(Kind::Bool),
            Item::Char { .. } => Some(Kind::Char),
            Item::String { .. } => Some(Kind::String),
            Item::F64 { .. } => Some(Kind::F64),
            Item::I64 { .. } => Some(Kind::I64),
            Item::U64 { .. } => Some(Kind::U64),
        }
    }
}

/// The items reached from `items` by entering, in order, the sub-menus at the
/// positions in `trail`.
pub open spec fn level(items: Seq<Item>, trail: Seq<usize>) -> Seq<Item>
    decreases trail.len(),
{
    if trail.len() == 0 {
        items
    } else {
        level(items, trail.drop_last())[trail.last() as int].children()
    }
}

/// Whether every position in `trail` names a sub-menu of the level before it.
pub open spec fn leads(items: Seq<Item>, trail: Seq<usize>) -> bool
    decreases trail.len(),
{
    trail.len() == 0 || {
        &&& leads(items, trail.drop_last())
        &&& trail.last() < level(items, trail.drop_last()).len()
        &&& level(items, trail.drop_last())[trail.last() as int].is_sub()
    }
}

/// The names of the sub-menus entered along `trail`, outermost first.
pub open spec fn names(items: Seq<Item>, trail: Seq<usize>) -> Seq<Seq<char>>
    decreases trail.len(),
{
    if trail.len() == 0 {
        Seq::empty()
    } else {
        names(items, trail.drop_last()).push(
            level(items, trail.drop_last())[trail.last() as int].label(),
        )
    }
}

impl Menu {
    /// The breadcrumb at the end of `trail`: the menu's name, then the name of
    /// each sub-menu entered.
    pub open spec fn crumbs(self, trail: Seq<usize>) -> Seq<Seq<char>> {
        seq![self.name@] + names(self.items@, trail)
    }

    /// The explanation of the level at the end of `trail`: the menu's own
    /// at the root, that of the sub-menu entered last anywhere else.
    pub open spec fn heading(self, trail: Seq<usize>) -> Option<Seq<char>> {
        if trail.len() == 0 {
            match self.exp {
                Some(text) => Some(text@),
                None => None,
            }
        } else {
            level(self.items@, trail.drop_last())[trail.last() as int].note()
        }
    }

    /// The items shown after entering the sub-menus at the first `depth`
    /// positions of `trail`, starting from the root.
    pub fn reach(&self, trail: &Vec<usize>, depth: usize) -> (items: &Vec<Item>)
        requires
            leads(self.items@, trail@),
            depth <= trail.len(),
        ensures
            items@ == level(self.items@, trail@.take(depth as int)),
    {
        let mut items: &Vec<Item> = &self.items;
        let mut at: usize = 0;
        while at < depth
            invariant
                at <= depth <= trail.len(),
                leads(self.items@, trail@),
                items@ == level(self.items@, trail@.take(at as int)),
            decreases depth - at,
        {
            proof {
                lemma_leads_prefix(self.items@, trail@, at as int + 1);
                assert(trail@.take(at as int + 1).drop_last() =~= trail@.take(at as int));
            }
            match &items[trail[at]] {
                Item::SubMenu { items: inner, .. } => {
                    items = inner;
                },
                _ => {},
            }
            at += 1;
        }
        items
    }

    /// The items shown after entering the sub-menus at the positions in
    /// `trail`, starting from the root.
    pub fn descend(&self, trail: &Vec<usize>) -> (items: &Vec<Item>)
        requires
            leads(self.items@, trail@),
        ensures
            items@ == level(self.items@, trail@),
    {
        proof {
            assert(trail@.take(trail@.len() as int) =~= trail@);
        }
        self.reach(trail, trail.len())
    }

    /// The explanation of the level at the end of `trail`.
    pub fn explain(&self, trail: &Vec<usize>) -> (exp: &Option<String>)
        requires
            leads(self.items@, trail@),
        ensures
            match *exp {
                Some(text) => self.heading(trail@) == Some(text@),
                None => self.heading(trail@).is_none(),
            },
    {
        if trail.len() == 0 {
            &self.exp
        } else {
            let last = trail.len() - 1;
            proof {
                assert(trail@.take(last as int) =~= trail@.drop_last());
            }
            let above = self.reach(trail, last);
            above[trail[last]].exp()
        }
    }
}

/// A level of a menu holds no more items than a vector can.
pub proof fn lemma_level_fits(menu: Menu, trail: Seq<usize>)
    ensures
        level(menu.items@, trail).len() <= usize::MAX,
{
    if trail.len() == 0 {
        assert(menu.items@.len() == menu.items.len());
    } else {
        match level(menu.items@, trail.drop_last())[trail.last() as int] {
            Item::SubMenu { items, .. } => {
                assert(items@.len() == items.len());
            },
            _ => {},
        }
    }
}

/// A trail that leads somewhere still does when cut short.
pub proof fn lemma_leads_prefix(items: Seq<Item>, trail: Seq<usize>, n: int)
    requires
        leads(items, trail),
        0 <= n <= trail.len(),
    ensures
        leads(items, trail.take(n)),
    decreases trail.len(),
{
    if n < trail.len() {
        lemma_leads_prefix(items, trail.drop_last(), n);
        assert(trail.drop_last().take(n) =~= trail.take(n));
    } else {
        assert(trail.take(n) =~= trail);
    }
}

} // verus!
