use causal_doc::cmd::ClientCommand;
use causal_doc::document::item::Item;
use causal_doc::document::Command as Wire;
use causal_doc::menu::{ClientState, Key, MenuAction, MenuInput, MenuState, TerminalEvent};
use causal_doc::text::{number_in_field, same_bytes};
use causal_doc::Command;

#[test]
fn the_six_words_are_commands() {
    assert_eq!(Command::parse_input(b"get_document"), Some(Command::GetDocument));
    assert_eq!(Command::parse_input(b"get_q1"), Some(Command::GetRecord { key: "q1".into() }));
    assert_eq!(Command::parse_input(b"get_q2"), Some(Command::GetRecord { key: "q2".into() }));
    assert_eq!(Command::parse_input(b"get_q3"), Some(Command::GetRecord { key: "q3".into() }));
    assert_eq!(Command::parse_input(b"get_readctx"), Some(Command::GetReadCtx));
    assert_eq!(Command::parse_input(b"request_actor"), Some(Command::RequestActor));
}

#[test]
fn white_space_around_a_line_is_trimmed() {
    assert_eq!(Command::parse_input(b"  get_document\r\n"), Some(Command::GetDocument));
    assert_eq!(
        Command::parse_input("\u{2003}get_readctx\t\u{a0}".as_bytes()),
        Some(Command::GetReadCtx)
    );
    assert_eq!(
        Command::parse_input(b" 1:q1:5 \n"),
        Some(Command::Update { actor: 1, key: "q1".into(), content: 5 })
    );
    assert_eq!(Command::parse_trimmed(b" get_document"), None);
    assert_eq!(Command::parse_input(b"get _document"), None);
}

#[test]
fn three_fields_are_an_update() {
    assert_eq!(
        Command::parse_input(b"4294967295:key:255"),
        Some(Command::Update { actor: u32::MAX, key: "key".into(), content: 255 })
    );
    assert_eq!(
        Command::parse_input(b"+7:k:+0"),
        Some(Command::Update { actor: 7, key: "k".into(), content: 0 })
    );
    assert_eq!(
        Command::parse_input(b"007::010"),
        Some(Command::Update { actor: 7, key: String::new(), content: 10 })
    );
    assert_eq!(
        Command::parse_input(b"1:a b:2:more:fields"),
        Some(Command::Update { actor: 1, key: "a b".into(), content: 2 })
    );
    assert_eq!(
        Command::parse_input("3:cl\u{e9}:4".as_bytes()),
        Some(Command::Update { actor: 3, key: "cl\u{e9}".into(), content: 4 })
    );
    assert_eq!(
        Command::parse_trimmed(b"1: k :2"),
        Some(Command::Update { actor: 1, key: " k ".into(), content: 2 })
    );
}

#[test]
fn lines_that_write_no_command_are_refused() {
    assert_eq!(Command::parse_input(b""), None);
    assert_eq!(Command::parse_input(b"   "), None);
    assert_eq!(Command::parse_input(b"get_q4"), None);
    assert_eq!(Command::parse_input(b"GET_DOCUMENT"), None);
    assert_eq!(Command::parse_input(b"1:q1"), None);
    assert_eq!(Command::parse_input(b"::"), None);
    assert_eq!(Command::parse_input(b"x:q1:5"), None);
    assert_eq!(Command::parse_input(b"-1:q1:5"), None);
    assert_eq!(Command::parse_input(b"+:q1:5"), None);
    assert_eq!(Command::parse_input(b"1 :q1:5"), None);
    assert_eq!(Command::parse_input(b"4294967296:q1:5"), None);
    assert_eq!(Command::parse_input(b"1:q1:256"), None);
    assert_eq!(Command::parse_input(b"1:q1:"), None);
    assert_eq!(Command::parse_input(b"1:q1:5x"), None);
    assert_eq!(Command::parse_input(b"1_0:q1:5"), None);
    assert_eq!(Command::parse_input(&[b'1', b':', 0xff, b':', b'5']), None);
    assert_eq!(Command::parse_input(&[0xff, b':', b'k', b':', b'5']), None);
}

#[test]
fn numbers_in_fields() {
    assert_eq!(number_in_field(b"0", 255), Some(0));
    assert_eq!(number_in_field(b"255", 255), Some(255));
    assert_eq!(number_in_field(b"256", 255), None);
    assert_eq!(number_in_field(b"+12", 255), Some(12));
    assert_eq!(number_in_field(b"", 255), None);
    assert_eq!(number_in_field(b"12 ", 255), None);
    assert_eq!(number_in_field("\u{663}".as_bytes(), 255), None);
    assert!(same_bytes(b"abc", b"abc"));
    assert!(!same_bytes(b"abc", b"abd"));
    assert!(!same_bytes(b"abc", b"ab"));
    assert!(same_bytes(b"", b""));
}

#[test]
fn keys_and_events_become_inputs() {
    assert_eq!(MenuInput::from_keycode(Key::Up), Some(MenuInput::Up));
    assert_eq!(MenuInput::from_keycode(Key::Down), Some(MenuInput::Down));
    assert_eq!(MenuInput::from_keycode(Key::Enter), Some(MenuInput::Enter));
    assert_eq!(MenuInput::from_keycode(Key::Esc), Some(MenuInput::Quit));
    assert_eq!(MenuInput::from_keycode(Key::Other), None);
    assert_eq!(MenuInput::from_event(&TerminalEvent::Key(Key::Esc)), Some(MenuInput::Quit));
    assert_eq!(MenuInput::from_event(&TerminalEvent::Key(Key::Other)), None);
    assert_eq!(MenuInput::from_event(&TerminalEvent::Other), None);
}

#[test]
fn the_mark_moves_within_the_menu() {
    let mut menu = MenuState::command_menu();
    assert_eq!(menu.index, 0);
    assert_eq!(
        menu.items,
        vec![
            "Get document",
            "Get record by key",
            "Get document read context",
            "Add a record",
            "Apply an op"
        ]
    );
    assert_eq!(menu.max_index(), 4);
    menu.previous();
    assert_eq!(menu.index, 0);
    menu.next();
    assert_eq!(menu.index, 1);
    menu.apply_command(MenuInput::Down);
    menu.apply_command(MenuInput::Down);
    menu.apply_command(MenuInput::Down);
    assert_eq!(menu.index, 4);
    menu.apply_command(MenuInput::Down);
    assert_eq!(menu.index, 4);
    menu.apply_command(MenuInput::Enter);
    menu.apply_command(MenuInput::Quit);
    assert_eq!(menu.index, 4);
    menu.apply_command(MenuInput::Up);
    assert_eq!(menu.index, 3);
}

#[test]
fn entries_send_their_commands() {
    let mut menu = MenuState::command_menu();
    assert_eq!(menu.choice_to_command(), Some(Wire::GetDocument));
    assert_eq!(menu.on_input(MenuInput::Enter), MenuAction::Send(Wire::GetDocument));
    assert_eq!(menu.on_input(MenuInput::Down), MenuAction::Redraw);
    assert_eq!(menu.on_input(MenuInput::Enter), MenuAction::Send(Wire::GetRecord { key: 0 }));
    assert_eq!(menu.on_input(MenuInput::Down), MenuAction::Redraw);
    assert_eq!(menu.on_input(MenuInput::Enter), MenuAction::Send(Wire::GetReadCtx));
    assert_eq!(menu.on_input(MenuInput::Down), MenuAction::Redraw);
    assert_eq!(menu.choice_to_command(), None);
    assert_eq!(menu.on_input(MenuInput::Enter), MenuAction::Nothing);
    assert_eq!(menu.on_input(MenuInput::Up), MenuAction::Redraw);
    assert_eq!(menu.index, 2);
    assert_eq!(menu.on_input(MenuInput::Quit), MenuAction::Quit);
    assert_eq!(menu.index, 2);
}

#[test]
fn a_new_client_knows_nothing() {
    let client = ClientState::new();
    assert!(client.actor.is_none());
    assert!(client.document.is_none());
    assert!(client.read_ctx.is_none());
}

#[test]
fn plain_types_can_be_built() {
    let single = Item::Single(3u8);
    let many = Item::Multiple(vec![1u8, 2]);
    assert!(matches!(single, Item::Single(3)));
    assert!(matches!(many.clone(), Item::Multiple(items) if items == vec![1, 2]));
    assert!(matches!(ClientCommand::GetDocument, ClientCommand::GetDocument));
}

#[test]
fn an_empty_menu_takes_every_input_but_the_arrow_down() {
    let mut menu = MenuState { index: 0, items: Vec::new() };
    menu.apply_command(MenuInput::Up);
    menu.apply_command(MenuInput::Enter);
    menu.apply_command(MenuInput::Quit);
    assert_eq!(menu.index, 0);
    assert_eq!(menu.on_input(MenuInput::Up), MenuAction::Redraw);
    assert_eq!(menu.on_input(MenuInput::Enter), MenuAction::Send(Wire::GetDocument));
    assert_eq!(menu.on_input(MenuInput::Quit), MenuAction::Quit);
    assert_eq!(menu.index, 0);
}
