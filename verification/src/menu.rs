//! The client's menu: which entry is marked, and what a key does to it.

use crate::ctx::ReadCtx;
use crate::document::{Command, CommandView, DocActor, Document};
use vstd::prelude::*;

verus! {

/// A key of the keyboard, as far as the menu tells keys apart.
#[derive(Clone, Copy, Debug, PartialEq, Eq, Structural)]
pub enum Key {
    Up,
    Down,
    Enter,
    Esc,
    Other,
}

/// What reaches the client from the terminal.
#[derive(Clone, Copy, Debug, PartialEq, Eq, Structural)]
pub enum TerminalEvent {
    /// A key was pressed.
    Key(Key),
    /// Anything else: the mouse, a change of size.
    Other,
}

/// What the user tells the menu.
#[derive(Clone, Copy, Debug, PartialEq, Eq, PartialOrd, Ord, Structural)]
pub enum MenuInput {
    Up,
    Down,
    Enter,
    Quit,
}

impl MenuInput {
    /// The input that a key stands for: the two arrows, enter, and escape
    /// for quitting. Any other key stands for none.
    pub fn from_keycode(key_code: Key) -> (r: Option<Self>)
        ensures
            r == match key_code {
                Key::Up => Some(MenuInput::Up),
                Key::Down => Some(MenuInput::Down),
                Key::Enter => Some(MenuInput::Enter),
                Key::Esc => Some(MenuInput::Quit),
                Key::Other => None,
            },
    {
        match key_code {
            Key::Up => Some(MenuInput::Up),
            Key::Down => Some(MenuInput::Down),
            Key::Enter => Some(MenuInput::Enter),
            Key::Esc => Some(MenuInput::Quit),
            Key::Other => None,
        }
    }

    /// The input that an event of the terminal stands for: that of its key,
    /// if it is a key.
    pub fn from_event(event: &TerminalEvent) -> (r: Option<Self>)
        ensures
            r == match *event {
                TerminalEvent::Key(Key::Up) => Some(MenuInput::Up),
                TerminalEvent::Key(Key::Down) => Some(MenuInput::Down),
                TerminalEvent::Key(Key::Enter) => Some(MenuInput::Enter),
                TerminalEvent::Key(Key::Esc) => Some(MenuInput::Quit),
                _ => None,
            },
    {
        match event {
            TerminalEvent::Key(key) => MenuInput::from_keycode(*key),
            TerminalEvent::Other => None,
        }
    }
}

/// What the client knows of the store.
#[derive(Debug)]
pub struct ClientState {
    pub actor: Option<DocActor>,
    pub document: Option<Document>,
    pub read_ctx: Option<ReadCtx<()>>,
}

impl ClientState {
    /// A client that knows nothing yet.
    pub fn new() -> (r: Self)
        ensures
            r.actor is None,
            r.document is None,
            r.read_ctx is None,
    {
        ClientState { actor: None, document: None, read_ctx: None }
    }
}

/// What the client does after an input.
#[derive(Debug, PartialEq, Eq)]
pub enum MenuAction {
    /// Leave the menu.
    Quit,
    /// Send this command to the store.
    Send(Command),
    /// Draw the menu again.
    Redraw,
    /// Nothing.
    Nothing,
}

/// The menu: its entries and the index of the one that is marked.
#[derive(Debug)]
pub struct MenuState {
    pub index: usize,
    pub items: Vec<String>,
}

/// The command that the entry at `index` of the command menu sends, if it
/// sends one.
pub open spec fn command_at(index: usize) -> Option<CommandView> {
    if index == 0 {
        Some(CommandView::GetDocument)
    } else if index == 1 {
        Some(CommandView::GetRecord { key: 0 })
    } else if index == 2 {
        Some(CommandView::GetReadCtx)
    } else {
        None
    }
}

/// The index that is marked after a step up from `index`: one less, and
/// the first stays.
pub open spec fn index_before(index: usize) -> int {
    if index > 0 {
        index - 1
    } else {
        0
    }
}

/// The index that is marked after a step down from `index` in a menu of
/// `len` entries: one more, and the last stays.
pub open spec fn index_after(index: usize, len: nat) -> int {
    if index < len - 1 {
        index + 1
    } else {
        index as int
    }
}

impl MenuState {
    /// The entries of the menu.
    pub open spec fn entries(&self) -> Seq<String> {
        self.items@
    }

    /// The marked entry is one of the entries.
    pub open spec fn well_formed(&self) -> bool {
        self.index < self.entries().len()
    }

    /// The menu of the commands, with its first entry marked.
    pub fn command_menu() -> (r: Self)
        ensures
            r.index == 0,
            r.entries().len() == 5,
            r.entries()[0]@ == "Get document"@,
            r.entries()[1]@ == "Get record by key"@,
            r.entries()[2]@ == "Get document read context"@,
            r.entries()[3]@ == "Add a record"@,
            r.entries()[4]@ == "Apply an op"@,
            r.well_formed(),
    {
        let mut items: Vec<String> = Vec::new();
        items.push("Get document".to_owned());
        items.push("Get record by key".to_owned());
        items.push("Get document read context".to_owned());
        items.push("Add a record".to_owned());
        items.push("Apply an op".to_owned());
        MenuState { index: 0, items }
    }

    /// The command that the marked entry sends, if it sends one.
    pub fn choice_to_command(&self) -> (r: Option<Command>)
        ensures
            match r {
                Some(cmd) => command_at(self.index) == Some(cmd@),
                None => command_at(self.index) is None,
            },
    {
        if self.index == 0 {
            Some(Command::GetDocument)
        } else if self.index == 1 {
            Some(Command::GetRecord { key: 0 })
        } else if self.index == 2 {
            Some(Command::GetReadCtx)
        } else {
            None
        }
    }

    /// The index of the last entry. The menu must have an entry.
    pub fn max_index(&self) -> (r: usize)
        requires
            self.entries().len() > 0,
        ensures
            r == self.entries().len() - 1,
    {
        self.items.len() - 1
    }

    /// Marks the entry before the marked one, unless the first is marked.
    pub fn previous(&mut self)
        ensures
            final(self).entries() == old(self).entries(),
            final(self).index == index_before(old(self).index),
    {
        if self.index > 0 {
            self.index -= 1;
        }
    }

    /// Marks the entry after the marked one, unless the last is marked. The
    /// menu must have an entry.
    pub fn next(&mut self)
        requires
            old(self).entries().len() > 0,
        ensures
            final(self).entries() == old(self).entries(),
            final(self).index == index_after(old(self).index, old(self).entries().len()),
    {
        if self.index < self.max_index() {
            self.index += 1;
        }
    }

    /// Moves the mark as an arrow says. Enter and quit leave the menu as it
    /// is. For the arrow down the menu must have an entry.
    pub fn apply_command(&mut self, cmd: MenuInput)
        requires
            cmd == MenuInput::Down ==> old(self).entries().len() > 0,
        ensures
            final(self).entries() == old(self).entries(),
            final(self).index == match cmd {
                MenuInput::Up => index_before(old(self).index),
                MenuInput::Down => index_after(old(self).index, old(self).entries().len()),
                _ => old(self).index as int,
            },
            old(self).well_formed() ==> final(self).well_formed(),
    {
        match cmd {
            MenuInput::Up => self.previous(),
            MenuInput::Down => self.next(),
            MenuInput::Enter => (),
            MenuInput::Quit => (),
        }
    }

    /// One step of the menu's task: quit ends it; enter sends the command of
    /// the marked entry, if it has one; an arrow moves the mark and the menu
    /// is drawn again. For the arrow down the menu must have an entry.
    pub fn on_input(&mut self, input: MenuInput) -> (action: MenuAction)
        requires
            input == MenuInput::Down ==> old(self).entries().len() > 0,
        ensures
            final(self).entries() == old(self).entries(),
            old(self).well_formed() ==> final(self).well_formed(),
            match input {
                MenuInput::Quit => action == MenuAction::Quit && final(self).index == old(self).index,
                MenuInput::Enter => final(self).index == old(self).index && match action {
                    MenuAction::Send(cmd) => command_at(old(self).index) == Some(cmd@),
                    MenuAction::Nothing => command_at(old(self).index) is None,
                    _ => false,
                },
                MenuInput::Up => action == MenuAction::Redraw && final(self).index == index_before(
                    old(self).index,
                ),
                MenuInput::Down => action == MenuAction::Redraw && final(self).index == index_after(
                    old(self).index,
                    old(self).entries().len(),
                ),
            },
    {
        match input {
            MenuInput::Quit => MenuAction::Quit,
            MenuInput::Enter => match self.choice_to_command() {
                Some(cmd) => MenuAction::Send(cmd),
                None => MenuAction::Nothing,
            },
            _ => {
                self.apply_command(input);
                MenuAction::Redraw
            },
        }
    }
}

} // verus!
