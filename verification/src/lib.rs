//! A causally consistent replicated document store.

pub mod clock;
pub mod cmd;
pub mod commands;
pub mod ctx;
pub mod document;
pub mod menu;
pub mod server;
pub mod text;

use crate::text::{
    fields_of, number_in, number_in_field, same_bytes, split_fields, text_of, trim_bytes, trimmed,
};
use vstd::prelude::*;
use vstd::string::StringSliceAdditionalSpecFns;
use vstd::utf8::{decode_utf8, valid_utf8};

verus! {

/// A command as a user types it.
#[derive(Debug, Clone, PartialEq, Eq, PartialOrd, Ord)]
pub enum Command {
    GetDocument,
    GetRecord { key: String },
    GetReadCtx,
    Update { actor: u32, key: String, content: u8 },
    RequestActor,
}

/// What a typed `Command` says.
pub enum TypedView {
    GetDocument,
    GetRecord { key: Seq<char> },
    GetReadCtx,
    Update { actor: u32, key: Seq<char>, content: u8 },
    RequestActor,
}

impl View for Command {
    type V = TypedView;

    open spec fn view(&self) -> TypedView {
        match *self {
            Command::GetDocument => TypedView::GetDocument,
            Command::GetRecord { key } => TypedView::GetRecord { key: key@ },
            Command::GetReadCtx => TypedView::GetReadCtx,
            Command::Update { actor, key, content } => TypedView::Update {
                actor,
                key: key@,
                content,
            },
            Command::RequestActor => TypedView::RequestActor,
        }
    }
}

impl Command {
    /// The command that a trimmed line writes.
    ///
    /// Six lines are commands by themselves. Any other line is read as
    /// fields between colons, the byte 58: the actor as a decimal `u32`, the
    /// key as text, the content as a decimal `u8`; fields after the third
    /// are ignored.
    pub open spec fn parsing(line: Seq<u8>) -> Option<TypedView> {
        if line == "get_document".spec_bytes() {
            Some(TypedView::GetDocument)
        } else if line == "get_q1".spec_bytes() {
            Some(TypedView::GetRecord { key: "q1"@ })
        } else if line == "get_q2".spec_bytes() {
            Some(TypedView::GetRecord { key: "q2"@ })
        } else if line == "get_q3".spec_bytes() {
            Some(TypedView::GetRecord { key: "q3"@ })
        } else if line == "get_readctx".spec_bytes() {
            Some(TypedView::GetReadCtx)
        } else if line == "request_actor".spec_bytes() {
            Some(TypedView::RequestActor)
        } else {
            let fields = fields_of(line, 58);
            if fields.len() < 3 {
                None
            } else {
                match (
                    number_in(fields[0], u32::MAX as nat),
                    valid_utf8(fields[1]),
                    number_in(fields[2], u8::MAX as nat),
                ) {
                    (Some(actor), true, Some(content)) => Some(
                        TypedView::Update {
                            actor: actor as u32,
                            key: decode_utf8(fields[1]),
                            content: content as u8,
                        },
                    ),
                    _ => None,
                }
            }
        }
    }

    /// Reads a command from a line that has no white space around it:
    /// `parsing` says which, and `None` comes exactly for the lines that
    /// write none.
    pub fn parse_trimmed(line: &[u8]) -> (r: Option<Self>)
        ensures
            match r {
                Some(cmd) => Command::parsing(line@) == Some(cmd@),
                None => Command::parsing(line@) is None,
            },
    {
        if same_bytes(line, "get_document".as_bytes()) {
            Some(Command::GetDocument)
        } else if same_bytes(line, "get_q1".as_bytes()) {
            Some(Command::GetRecord { key: "q1".to_owned() })
        } else if same_bytes(line, "get_q2".as_bytes()) {
            Some(Command::GetRecord { key: "q2".to_owned() })
        } else if same_bytes(line, "get_q3".as_bytes()) {
            Some(Command::GetRecord { key: "q3".to_owned() })
        } else if same_bytes(line, "get_readctx".as_bytes()) {
            Some(Command::GetReadCtx)
        } else if same_bytes(line, "request_actor".as_bytes()) {
            Some(Command::RequestActor)
        } else {
            let fields = split_fields(line, 58);
            if fields.len() < 3 {
                return None;
            }
            proof {
                assert(fields.deep_view()[0] == fields[0].deep_view());
                assert(fields.deep_view()[1] == fields[1].deep_view());
                assert(fields.deep_view()[2] == fields[2].deep_view());
                assert(fields[0].deep_view() =~= fields[0]@);
                assert(fields[1].deep_view() =~= fields[1]@);
                assert(fields[2].deep_view() =~= fields[2]@);
            }
            let actor = match number_in_field(fields[0].as_slice(), u32::MAX) {
                Some(actor) => actor,
                None => {
                    return None;
                },
            };
            let key = match text_of(fields[1].as_slice()) {
                Some(key) => key,
                None => {
                    return None;
                },
            };
            let content = match number_in_field(fields[2].as_slice(), 255) {
                Some(content) => content,
                None => {
                    return None;
                },
            };
            Some(Command::Update { actor, key, content: content as u8 })
        }
    }

    /// Reads a command from a line as it was typed: the white space around
    /// it is trimmed, and the rest is read as `parse_trimmed` reads it.
    pub fn parse_input(bytes: &[u8]) -> (r: Option<Self>)
        ensures
            match r {
                Some(cmd) => Command::parsing(trimmed(bytes@)) == Some(cmd@),
                None => Command::parsing(trimmed(bytes@)) is None,
            },
    {
        Command::parse_trimmed(trim_bytes(bytes))
    }
}

} // verus!
