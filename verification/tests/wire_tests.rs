use causal_doc::clock::{Dot, VClock};
use causal_doc::ctx::{AddCtx, ReadCtx};
use causal_doc::document::{Command, DocResponse, Document, DocumentOp, RecordOp};
use std::collections::BTreeSet;

fn blob(s: &str) -> Vec<u8> {
    s.as_bytes().to_vec()
}

fn clock_from(dots: &[(u32, u64)]) -> VClock {
    let mut clock = VClock::new();
    for (actor, counter) in dots {
        clock.dots.insert(*actor, *counter);
    }
    clock
}

fn outside_clock(dots: &[(u32, u64)]) -> crdts::VClock<u32> {
    let mut clock = crdts::VClock::new();
    for (actor, counter) in dots {
        clock.dots.insert(*actor, *counter);
    }
    clock
}

#[test]
fn read_commands_are_a_tag_and_a_key() {
    assert_eq!(Command::GetDocument.to_bytes(), Some(vec![0, 0, 0, 0]));
    assert_eq!(
        Command::GetRecord { key: 0x0403_0201 }.to_bytes(),
        Some(vec![1, 0, 0, 0, 1, 2, 3, 4])
    );
    assert_eq!(Command::GetReadCtx.to_bytes(), Some(vec![2, 0, 0, 0]));
}

#[test]
fn command_bytes_are_those_of_bincode() {
    assert_eq!(Command::GetDocument.to_bytes().unwrap(), bincode::serialize(&0u32).unwrap());
    assert_eq!(
        Command::GetRecord { key: 7 }.to_bytes().unwrap(),
        bincode::serialize(&(1u32, 7u32)).unwrap()
    );
    assert_eq!(Command::GetReadCtx.to_bytes().unwrap(), bincode::serialize(&2u32).unwrap());
    let ctx = AddCtx { clock: clock_from(&[(0, 1), (3, 1)]), dot: Dot { actor: 3, counter: 1 } };
    let outside =
        crdts::ctx::AddCtx { clock: outside_clock(&[(0, 1), (3, 1)]), dot: crdts::Dot::new(3u32, 1) };
    let cmd = Command::Add { add_ctx: ctx, key: 9, content: String::from("hello") };
    assert_eq!(
        cmd.to_bytes().unwrap(),
        bincode::serialize(&(3u32, outside, 9u32, "hello")).unwrap()
    );
    let dot = Dot { actor: 4, counter: 2 };
    let op = DocumentOp::Up { dot, key: 8, op: RecordOp::Add { dot, members: vec![blob("x")] } };
    let outside_op: crdts::map::Op<u32, crdts::Orswot<Vec<u8>, u32>, u32> = crdts::map::Op::Up {
        dot: crdts::Dot::new(4, 2),
        key: 8,
        op: crdts::orswot::Op::Add { dot: crdts::Dot::new(4, 2), members: vec![blob("x")] },
    };
    assert_eq!(
        Command::Apply { op }.to_bytes().unwrap(),
        bincode::serialize(&(4u32, outside_op)).unwrap()
    );
}

#[test]
fn every_command_round_trips() {
    let dot = Dot { actor: 4, counter: 2 };
    let mut keyset = BTreeSet::new();
    keyset.insert(3u32);
    keyset.insert(1u32);
    let commands = vec![
        Command::GetDocument,
        Command::GetRecord { key: 0 },
        Command::GetRecord { key: u32::MAX },
        Command::GetReadCtx,
        Command::Add {
            add_ctx: AddCtx { clock: VClock::new(), dot: Dot { actor: 0, counter: 0 } },
            key: 1,
            content: String::new(),
        },
        Command::Add {
            add_ctx: AddCtx { clock: clock_from(&[(1, 2), (5, 9)]), dot: Dot { actor: 5, counter: 9 } },
            key: 77,
            content: String::from("caf\u{e9} \u{2603}"),
        },
        Command::Apply {
            op: DocumentOp::Up { dot, key: 8, op: RecordOp::Add { dot, members: vec![] } },
        },
        Command::Apply {
            op: DocumentOp::Up {
                dot,
                key: 8,
                op: RecordOp::Add { dot, members: vec![blob(""), blob("x"), vec![0, 255]] },
            },
        },
        Command::Apply {
            op: DocumentOp::Up {
                dot,
                key: 8,
                op: RecordOp::Rm { clock: clock_from(&[(4, 2)]), members: vec![blob("x")] },
            },
        },
        Command::Apply { op: DocumentOp::Rm { clock: clock_from(&[(4, 1)]), keyset } },
        Command::Apply { op: DocumentOp::Rm { clock: VClock::new(), keyset: BTreeSet::new() } },
    ];
    for cmd in commands {
        let bytes = cmd.to_bytes().expect("the command can be written");
        assert_eq!(Command::from_bytes(&bytes), Some(cmd));
    }
}

#[test]
fn bytes_that_hold_no_command_are_refused() {
    assert_eq!(Command::from_bytes(&[]), None);
    assert_eq!(Command::from_bytes(&[0, 0, 0]), None);
    assert_eq!(Command::from_bytes(&[5, 0, 0, 0]), None);
    assert_eq!(Command::from_bytes(&[0, 1, 0, 0]), None);
    assert_eq!(Command::from_bytes(&[1, 0, 0, 0, 1, 2, 3]), None);
    assert_eq!(Command::from_bytes(&[3, 0, 0, 0]), None);
    assert_eq!(Command::from_bytes(&[4, 0, 0, 0, 2, 0, 0, 0]), None);
}

#[test]
fn bytes_after_a_command_are_ignored() {
    assert_eq!(Command::from_bytes(&[0, 0, 0, 0, 9, 9]), Some(Command::GetDocument));
    assert_eq!(Command::from_bytes(&[2, 0, 0, 0, 1]), Some(Command::GetReadCtx));
    assert_eq!(
        Command::from_bytes(&[1, 0, 0, 0, 5, 0, 0, 0, 7]),
        Some(Command::GetRecord { key: 5 })
    );
}

#[test]
fn responses_round_trip() {
    let doc = Document::example();
    let responses = vec![
        DocResponse::Document(doc.clone()),
        DocResponse::Document(Document::default()),
        DocResponse::Record(doc.get_record(1)),
        DocResponse::Record(doc.get_record(5)),
        DocResponse::ReadCtx(doc.get_read_ctx()),
        DocResponse::ReadCtx(ReadCtx { add_clock: VClock::new(), rm_clock: VClock::new(), val: () }),
    ];
    for resp in responses {
        let bytes = resp.to_bytes().expect("the response can be written");
        assert_eq!(DocResponse::from_bytes(&bytes), Some(resp));
    }
}

#[test]
fn response_bytes_are_those_of_bincode() {
    let ctx = Document::example().get_read_ctx();
    let outside = crdts::ctx::ReadCtx {
        add_clock: outside_clock(&[(0, 1)]),
        rm_clock: outside_clock(&[(0, 1)]),
        val: (),
    };
    assert_eq!(
        DocResponse::ReadCtx(ctx).to_bytes().unwrap(),
        bincode::serialize(&(2u32, outside)).unwrap()
    );
    let absent = Document::example().get_record(4);
    let outside_absent: crdts::ctx::ReadCtx<Option<crdts::Orswot<Vec<u8>, u32>>, u32> =
        crdts::ctx::ReadCtx {
            add_clock: outside_clock(&[(0, 1)]),
            rm_clock: crdts::VClock::new(),
            val: None,
        };
    assert_eq!(
        DocResponse::Record(absent).to_bytes().unwrap(),
        bincode::serialize(&(1u32, outside_absent)).unwrap()
    );
    let empty: crdts::Map<u32, crdts::Orswot<Vec<u8>, u32>, u32> = crdts::Map::new();
    assert_eq!(
        DocResponse::Document(Document::default()).to_bytes().unwrap(),
        bincode::serialize(&(0u32, empty)).unwrap()
    );
}

#[test]
fn bytes_that_hold_no_response_are_refused() {
    assert_eq!(DocResponse::from_bytes(&[]), None);
    assert_eq!(DocResponse::from_bytes(&[2, 0]), None);
    assert_eq!(DocResponse::from_bytes(&[3, 0, 0, 0]), None);
    assert_eq!(DocResponse::from_bytes(&[0, 0, 0, 0]), None);
    assert_eq!(DocResponse::from_bytes(&[2, 0, 0, 0, 1, 0, 0, 0]), None);
}
