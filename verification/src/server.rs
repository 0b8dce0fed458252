//! The store's side of the protocol: one document shared by all
//! connections, the log of what was applied to it, and what each command
//! does.

use crate::document::laws::addition;
use crate::document::op::DocumentOpView;
use crate::document::store::{apply_outcome, DocumentView};
use crate::document::{
    example_update, log_view, Command, CommandView, DocActor, DocResponse, DocResponseView,
    Document, DocumentOp, OrswotRecord, RecordOp,
};
use crate::ctx::AddCtx;
use crate::document::op::RecordOpView;
use std::collections::HashSet;
use vstd::prelude::*;
use vstd::slice::slice_to_vec;

verus! {

/// What the store keeps for the life of the process.
pub struct State {
    /// The document that every connection reads and edits.
    pub doc: Document,
    /// Every operation that was applied, in the order of application.
    pub ops: Vec<DocumentOp>,
    /// The actor that was handed out last.
    pub latest_actor: DocActor,
    /// The actors of the clients.
    pub clients: HashSet<DocActor>,
}

/// What arrives on a connection.
pub enum Event {
    /// One message: whether it is a binary one, and its bytes.
    Message { binary: bool, bytes: Vec<u8> },
    /// The stream ended or failed.
    End,
}

/// What the connection's task does next.
#[derive(Debug, PartialEq, Eq)]
pub enum Action {
    /// Send these bytes as one binary message, then wait for the next event.
    Reply(Vec<u8>),
    /// Wait for the next event.
    Wait,
    /// Leave the loop: the connection is closed.
    Close,
}

/// The operation that a command asks the store to apply, if it asks for one:
/// an addition of the content's bytes for `Add`, the operation itself for
/// `Apply`.
pub open spec fn operation_of(cmd: CommandView) -> Option<DocumentOpView> {
    match cmd {
        CommandView::Add { clock, dot, key, content } => Some(
            addition(dot, key, seq![vstd::utf8::encode_utf8(content)]),
        ),
        CommandView::Apply { op } => Some(op),
        _ => None,
    }
}

/// `resp` is the answer that `cmd` gets from the document `doc`: the whole
/// document, the record under the key with the context of its read, or the
/// aggregate clock; and none for a command that writes.
pub open spec fn answers(doc: Document, cmd: CommandView, resp: Option<DocResponse>) -> bool {
    match cmd {
        CommandView::GetDocument => resp == Some(DocResponse::Document(doc)),
        CommandView::GetRecord { key } => resp is Some && resp->0@ == (DocResponseView::Record {
            add_clock: doc@.clock,
            rm_clock: doc@.entry_clock_at(key),
            record: if doc@.entries.contains_key(key) {
                Some(doc@.entries[key].record)
            } else {
                None
            },
        }),
        CommandView::GetReadCtx => resp is Some && resp->0@ == (DocResponseView::ReadCtx {
            add_clock: doc@.clock,
            rm_clock: doc@.clock,
        }),
        _ => resp is None,
    }
}

/// `after` is the store that `before` becomes when it has served `cmd`: a
/// read changes nothing; a write appends its operation to the log and
/// applies it to the document.
pub open spec fn serves(before: State, cmd: CommandView, after: State) -> bool {
    &&& after.latest_actor == before.latest_actor
    &&& after.clients == before.clients
    &&& match operation_of(cmd) {
        None => after.doc == before.doc && after.ops == before.ops,
        Some(op) => {
            &&& log_view(after.ops@) == log_view(before.ops@).push(op)
            &&& apply_outcome(before.doc.records, op, after.doc.records)
            &&& before.doc@.foreseen(op) ==> after.doc@ == before.doc@.applied(op)
        },
    }
}

/// The command in a message: a message that is not binary holds none.
pub fn parse_command(binary: bool, bytes: &[u8]) -> (r: Option<Command>)
    ensures
        match r {
            Some(cmd) => binary && Command::decoding(bytes@) == Some(cmd@),
            None => !binary || Command::decoding(bytes@) is None,
        },
{
    if binary {
        Command::from_bytes(bytes)
    } else {
        None
    }
}

impl State {
    /// The store at start: the example document, an empty log, no client.
    pub fn new() -> (r: Self)
        ensures
            r.doc@ == DocumentView::empty().applied(example_update()),
            r.doc@.coherent(),
            r.ops@.len() == 0,
            r.latest_actor == 0,
            r.clients@ == Set::<DocActor>::empty(),
    {
        State { doc: Document::example(), ops: Vec::new(), latest_actor: 0, clients: HashSet::new() }
    }

    /// Serves one command. A read is answered from the document and changes
    /// nothing. A write gets no answer: its operation is appended to the log
    /// and applied, and an operation that the document has seen changes the
    /// log only.
    pub fn serve(&mut self, cmd: Command) -> (resp: Option<DocResponse>)
        ensures
            answers(old(self).doc, cmd@, resp),
            serves(*old(self), cmd@, *final(self)),
    {
        match cmd {
            Command::GetDocument => Some(DocResponse::Document(self.doc.clone())),
            Command::GetRecord { key } => Some(DocResponse::Record(self.doc.get_record(key))),
            Command::GetReadCtx => Some(DocResponse::ReadCtx(self.doc.get_read_ctx())),
            Command::Add { add_ctx, key, content } => {
                let member = slice_to_vec(content.as_str().as_bytes());
                let ghost dot = add_ctx.dot;
                let add_member = |set: &OrswotRecord, ctx: AddCtx| -> (edit: RecordOp)
                    ensures
                        edit@ == (RecordOpView::Add { dot: ctx.dot, members: seq![member@] }),
                    {
                        set.add(member, ctx)
                    };
                let op = self.doc.update_record(key, add_ctx, add_member);
                assert(op@ == addition(dot, key, seq![member@]));
                self.log_and_apply(op);
                None
            },
            Command::Apply { op } => {
                self.log_and_apply(op);
                None
            },
        }
    }

    /// Appends `op` to the log and applies it to the document.
    fn log_and_apply(&mut self, op: DocumentOp)
        ensures
            final(self).latest_actor == old(self).latest_actor,
            final(self).clients == old(self).clients,
            log_view(final(self).ops@) == log_view(old(self).ops@).push(op@),
            apply_outcome(old(self).doc.records, op@, final(self).doc.records),
            old(self).doc@.foreseen(op@) ==> final(self).doc@ == old(self).doc@.applied(op@),
    {
        let copy = op.clone();
        self.ops.push(copy);
        assert(log_view(self.ops@) =~= log_view(old(self).ops@).push(op@));
        self.doc.apply(op);
    }

    /// Serves the command in one message and writes the answer. A message
    /// that holds no command is dropped: nothing changes and nothing is
    /// answered. A read is always answered, a write never.
    pub fn receive(&mut self, binary: bool, bytes: &[u8]) -> (reply: Option<Vec<u8>>)
        ensures
            (reply is Some) == (binary && Command::decoding(bytes@) is Some && operation_of(
                Command::decoding(bytes@)->0,
            ) is None),
            !binary || Command::decoding(bytes@) is None ==> reply is None && *final(self) == *old(
                self,
            ),
            binary && Command::decoding(bytes@) is Some ==> serves(
                *old(self),
                Command::decoding(bytes@)->0,
                *final(self),
            ),
            reply is Some ==> binary && Command::decoding(bytes@) is Some && exists|
                resp: DocResponse,
            |
                answers(old(self).doc, Command::decoding(bytes@)->0, Some(resp))
                    && DocResponse::decoding(reply->0@) == Some(resp@),
    {
        match parse_command(binary, bytes) {
            None => None,
            Some(cmd) => match self.serve(cmd) {
                None => None,
                Some(resp) => resp.to_bytes(),
            },
        }
    }

    /// One step of a connection's task: a message is served, and the answer
    /// to a read is to be sent; the end of the stream closes the connection
    /// and leaves the store as it is.
    pub fn on_event(&mut self, event: Event) -> (action: Action)
        ensures
            (action is Reply) == (event is Message && event->binary && Command::decoding(
                event->bytes@,
            ) is Some && operation_of(Command::decoding(event->bytes@)->0) is None),
            event is End ==> action == Action::Close && *final(self) == *old(self),
            event is Message ==> action != Action::Close,
            event is Message && (!event->binary || Command::decoding(event->bytes@) is None)
                ==> action == Action::Wait && *final(self) == *old(self),
            event is Message && event->binary && Command::decoding(event->bytes@) is Some
                ==> serves(*old(self), Command::decoding(event->bytes@)->0, *final(self)),
            action is Reply ==> event is Message && event->binary && Command::decoding(
                event->bytes@,
            ) is Some && exists|resp: DocResponse|
                answers(old(self).doc, Command::decoding(event->bytes@)->0, Some(resp))
                    && DocResponse::decoding(action->0@) == Some(resp@),
    {
        match event {
            Event::End => Action::Close,
            Event::Message { binary, bytes } => match self.receive(binary, bytes.as_slice()) {
                Some(reply) => Action::Reply(reply),
                None => Action::Wait,
            },
        }
    }
}

} // verus!
