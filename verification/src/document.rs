//! The document: keyed records that replicas edit concurrently.

pub mod frame;
pub mod item;
pub mod op;
pub mod record;
pub mod store;
pub mod unhindered;
pub mod wire;
pub mod laws;

pub use crate::document::op::{DocumentOp, RecordOp};
pub use crate::document::record::OrswotRecord;
pub use crate::document::store::RecordMap;

use crate::clock::{dominates, witnessed, Dot};
use crate::ctx::{AddCtx, ReadCtx};
use crate::document::op::{DocumentOpView, RecordOpView};
use crate::document::record::RecordView;
use crate::document::store::{
    apply_outcome, apply_to_map, copy_map, fresh_map, get_from_map, keys_of_map, read_ctx_of_map,
    DocumentView,
};
use crate::document::wire::{
    decode_addition, decode_map, decode_op, decode_read_ctx, decode_record_ctx,
    decoded_addition, decoded_map, decoded_op, decoded_read_ctx, decoded_record_ctx,
    encode_addition, encode_map, encode_op, encode_read_ctx, encode_record_ctx,
};
use crate::document::frame::{
    frame, framed, leading_tag, lemma_framed, lemma_word, payload, split_frame, word_bytes,
    write_word,
};
use vstd::prelude::*;
use vstd::slice::slice_to_vec;
use vstd::string::StringSliceAdditionalSpecFns;

verus! {

/// The name of a replica that writes.
pub type DocActor = u32;

/// The key of a record.
pub type RecordKey = u32;

/// One element of a record.
pub type RecordEntry = Vec<u8>;

/// The document: records by key, under one aggregate clock.
#[derive(Debug, PartialEq, Eq)]
pub struct Document {
    pub records: RecordMap,
}

impl View for Document {
    type V = DocumentView;

    open spec fn view(&self) -> DocumentView {
        self.records@
    }
}

impl Clone for Document {
    fn clone(&self) -> (r: Self)
        ensures
            r == *self,
    {
        Document { records: copy_map(&self.records) }
    }
}

impl Default for Document {
    fn default() -> (r: Self)
        ensures
            r@ == DocumentView::empty(),
    {
        let records = fresh_map();
        assert(records@.entries =~= DocumentView::empty().entries);
        Document { records }
    }
}

/// What a client asks of the store.
#[derive(Debug, Clone, PartialEq, Eq)]
pub enum Command {
    /// Send the whole document.
    GetDocument,
    /// Send the record under `key`.
    GetRecord { key: RecordKey },
    /// Send the aggregate clock.
    GetReadCtx,
    /// Add `content` to the record under `key`, as the event of `add_ctx`.
    Add { add_ctx: AddCtx, key: RecordKey, content: String },
    /// Apply an operation that another replica made.
    Apply { op: DocumentOp },
}

/// What a `Command` says.
pub enum CommandView {
    GetDocument,
    GetRecord { key: u32 },
    GetReadCtx,
    Add { clock: Map<u32, u64>, dot: Dot, key: u32, content: Seq<char> },
    Apply { op: DocumentOpView },
}

impl View for Command {
    type V = CommandView;

    open spec fn view(&self) -> CommandView {
        match *self {
            Command::GetDocument => CommandView::GetDocument,
            Command::GetRecord { key } => CommandView::GetRecord { key },
            Command::GetReadCtx => CommandView::GetReadCtx,
            Command::Add { add_ctx, key, content } => CommandView::Add {
                clock: add_ctx.clock@,
                dot: add_ctx.dot,
                key,
                content: content@,
            },
            Command::Apply { op } => CommandView::Apply { op: op@ },
        }
    }
}

/// What the store answers.
#[derive(Debug, Clone, PartialEq, Eq)]
pub enum DocResponse {
    /// The whole document.
    Document(Document),
    /// One record, if the document holds its key, with the context of the read.
    Record(ReadCtx<Option<OrswotRecord>>),
    /// The aggregate clock.
    ReadCtx(ReadCtx<()>),
}

/// What a `DocResponse` says.
pub enum DocResponseView {
    Document { doc: DocumentView },
    Record { add_clock: Map<u32, u64>, rm_clock: Map<u32, u64>, record: Option<RecordView> },
    ReadCtx { add_clock: Map<u32, u64>, rm_clock: Map<u32, u64> },
}

impl View for DocResponse {
    type V = DocResponseView;

    open spec fn view(&self) -> DocResponseView {
        match *self {
            DocResponse::Document(doc) => DocResponseView::Document { doc: doc@ },
            DocResponse::Record(ctx) => DocResponseView::Record {
                add_clock: ctx.add_clock@,
                rm_clock: ctx.rm_clock@,
                record: match ctx.val {
                    Some(record) => Some(record@),
                    None => None,
                },
            },
            DocResponse::ReadCtx(ctx) => DocResponseView::ReadCtx {
                add_clock: ctx.add_clock@,
                rm_clock: ctx.rm_clock@,
            },
        }
    }
}

impl Command {
    /// The command that `bytes` hold, if they hold one.
    ///
    /// A message is a number of four bytes, lowest first, that says which
    /// command it is, and then the command's fields: `0` the whole document,
    /// `1` a record, with the key as four bytes, `2` the read context, `3` an
    /// addition, `4` an operation. Bytes after the last field are ignored.
    pub open spec fn decoding(bytes: Seq<u8>) -> Option<CommandView> {
        if bytes.len() < 4 {
            None
        } else if leading_tag(bytes) == 0 {
            Some(CommandView::GetDocument)
        } else if leading_tag(bytes) == 1 {
            if payload(bytes).len() < 4 {
                None
            } else {
                Some(CommandView::GetRecord { key: leading_tag(payload(bytes)) })
            }
        } else if leading_tag(bytes) == 2 {
            Some(CommandView::GetReadCtx)
        } else if leading_tag(bytes) == 3 {
            match decoded_addition(payload(bytes)) {
                Some((clock, dot, key, content)) => Some(
                    CommandView::Add { clock, dot, key, content },
                ),
                None => None,
            }
        } else if leading_tag(bytes) == 4 {
            match decoded_op(payload(bytes)) {
                Some(op) => Some(CommandView::Apply { op }),
                None => None,
            }
        } else {
            None
        }
    }

    /// Reads a command: `decoding` says which, and `None` comes exactly for
    /// the bytes that hold none.
    pub fn from_bytes(bytes: &[u8]) -> (r: Option<Self>)
        ensures
            match r {
                Some(cmd) => Command::decoding(bytes@) == Some(cmd@),
                None => Command::decoding(bytes@) is None,
            },
    {
        match split_frame(bytes) {
            None => None,
            Some((tag, rest)) => {
                if tag == 0 {
                    Some(Command::GetDocument)
                } else if tag == 1 {
                    match split_frame(rest) {
                        Some((key, _)) => Some(Command::GetRecord { key }),
                        None => None,
                    }
                } else if tag == 2 {
                    Some(Command::GetReadCtx)
                } else if tag == 3 {
                    match decode_addition(rest) {
                        Some((add_ctx, key, content)) => Some(
                            Command::Add { add_ctx, key, content },
                        ),
                        None => None,
                    }
                } else if tag == 4 {
                    match decode_op(rest) {
                        Some(op) => Some(Command::Apply { op }),
                        None => None,
                    }
                } else {
                    None
                }
            },
        }
    }

    /// Writes the command: every command is written, and reading the bytes
    /// gives the command back. The bytes of the three reads are stated;
    /// those of an addition and of an operation are the frame of what
    /// `bincode` writes for their fields.
    pub fn to_bytes(&self) -> (r: Option<Vec<u8>>)
        ensures
            r is Some,
            Command::decoding(r->0@) == Some(self@),
            self is GetDocument ==> r is Some && r->0@ == framed(0, Seq::empty()),
            self is GetRecord ==> r is Some && r->0@ == framed(1, word_bytes(self->GetRecord_key)),
            self is GetReadCtx ==> r is Some && r->0@ == framed(2, Seq::empty()),
    {
        let empty: Vec<u8> = Vec::new();
        match self {
            Command::GetDocument => {
                proof {
                    lemma_framed(0, empty@);
                }
                Some(frame(0, &empty))
            },
            Command::GetRecord { key } => {
                let body = write_word(*key);
                proof {
                    lemma_framed(1, body@);
                    lemma_word(*key);
                }
                Some(frame(1, &body))
            },
            Command::GetReadCtx => {
                proof {
                    lemma_framed(2, empty@);
                }
                Some(frame(2, &empty))
            },
            Command::Add { add_ctx, key, content } => {
                match encode_addition(add_ctx, *key, content) {
                    Some(body) => {
                        proof {
                            lemma_framed(3, body@);
                        }
                        Some(frame(3, &body))
                    },
                    None => None,
                }
            },
            Command::Apply { op } => {
                match encode_op(op.clone()) {
                    Some(body) => {
                        proof {
                            lemma_framed(4, body@);
                        }
                        Some(frame(4, &body))
                    },
                    None => None,
                }
            },
        }
    }
}

impl DocResponse {
    /// The response that `bytes` hold, if they hold one.
    ///
    /// A message is a number of four bytes, lowest first, that says which
    /// response it is, and then what it carries: `0` a document, `1` the
    /// read context of a record, `2` a read context without a value. Bytes
    /// after that are ignored.
    pub open spec fn decoding(bytes: Seq<u8>) -> Option<DocResponseView> {
        if bytes.len() < 4 {
            None
        } else if leading_tag(bytes) == 0 {
            match decoded_map(payload(bytes)) {
                Some(doc) => Some(DocResponseView::Document { doc }),
                None => None,
            }
        } else if leading_tag(bytes) == 1 {
            match decoded_record_ctx(payload(bytes)) {
                Some((add_clock, rm_clock, record)) => Some(
                    DocResponseView::Record { add_clock, rm_clock, record },
                ),
                None => None,
            }
        } else if leading_tag(bytes) == 2 {
            match decoded_read_ctx(payload(bytes)) {
                Some((add_clock, rm_clock)) => Some(
                    DocResponseView::ReadCtx { add_clock, rm_clock },
                ),
                None => None,
            }
        } else {
            None
        }
    }

    /// Reads a response: `decoding` says which, and `None` comes exactly for
    /// the bytes that hold none.
    pub fn from_bytes(bytes: &[u8]) -> (r: Option<Self>)
        ensures
            match r {
                Some(resp) => DocResponse::decoding(bytes@) == Some(resp@),
                None => DocResponse::decoding(bytes@) is None,
            },
    {
        match split_frame(bytes) {
            None => None,
            Some((tag, rest)) => {
                if tag == 0 {
                    match decode_map(rest) {
                        Some(records) => Some(DocResponse::Document(Document { records })),
                        None => None,
                    }
                } else if tag == 1 {
                    match decode_record_ctx(rest) {
                        Some(ctx) => Some(DocResponse::Record(ctx)),
                        None => None,
                    }
                } else if tag == 2 {
                    match decode_read_ctx(rest) {
                        Some(ctx) => Some(DocResponse::ReadCtx(ctx)),
                        None => None,
                    }
                } else {
                    None
                }
            },
        }
    }

    /// Writes the response: every response is written, and reading the bytes
    /// gives a response that says the same.
    pub fn to_bytes(&self) -> (r: Option<Vec<u8>>)
        ensures
            r is Some,
            DocResponse::decoding(r->0@) == Some(self@),
    {
        match self {
            DocResponse::Document(doc) => {
                match encode_map(&doc.records) {
                    Some(body) => {
                        proof {
                            lemma_framed(0, body@);
                        }
                        Some(frame(0, &body))
                    },
                    None => None,
                }
            },
            DocResponse::Record(ctx) => {
                match encode_record_ctx(ctx) {
                    Some(body) => {
                        proof {
                            lemma_framed(1, body@);
                        }
                        Some(frame(1, &body))
                    },
                    None => None,
                }
            },
            DocResponse::ReadCtx(ctx) => {
                match encode_read_ctx(ctx) {
                    Some(body) => {
                        proof {
                            lemma_framed(2, body@);
                        }
                        Some(frame(2, &body))
                    },
                    None => None,
                }
            },
        }
    }
}

/// A replica of the document at one actor, with the log of what it applied.
#[derive(Debug, Clone)]
pub struct DocReplica {
    doc: Document,
    actor: DocActor,
    log: Vec<DocumentOp>,
}

/// What a list of operations says, one by one.
pub open spec fn log_view(log: Seq<DocumentOp>) -> Seq<DocumentOpView> {
    log.map_values(|op: DocumentOp| op@)
}

impl Default for DocReplica {
    fn default() -> (r: Self)
        ensures
            r.spec_document()@ == DocumentView::empty(),
            r.spec_actor() == 0,
            r.spec_log() == Seq::<DocumentOpView>::empty(),
    {
        let r = DocReplica { doc: Document::default(), actor: 0, log: Vec::new() };
        assert(log_view(r.log@) =~= Seq::<DocumentOpView>::empty());
        r
    }
}

impl DocReplica {
    /// The document of the replica.
    pub closed spec fn spec_document(&self) -> Document {
        self.doc
    }

    /// The actor of the replica.
    pub closed spec fn spec_actor(&self) -> DocActor {
        self.actor
    }

    /// The operations that the replica applied, oldest first.
    pub closed spec fn spec_log(&self) -> Seq<DocumentOpView> {
        log_view(self.log@)
    }

    /// A replica for `actor` that starts from a copy of `doc`, with an empty
    /// log.
    pub fn from_document(actor: DocActor, doc: &Document) -> (r: Self)
        ensures
            r.spec_document() == *doc,
            r.spec_actor() == actor,
            r.spec_log() == Seq::<DocumentOpView>::empty(),
    {
        let r = DocReplica { doc: doc.clone(), actor, log: Vec::new() };
        assert(log_view(r.log@) =~= Seq::<DocumentOpView>::empty());
        r
    }

    /// Appends `op` to the log and applies it to the document, as
    /// `Document::apply` says.
    pub fn apply_op(&mut self, op: DocumentOp)
        ensures
            final(self).spec_actor() == old(self).spec_actor(),
            final(self).spec_log() == old(self).spec_log().push(op@),
            apply_outcome(
                old(self).spec_document().records,
                op@,
                final(self).spec_document().records,
            ),
            old(self).spec_document()@.foreseen(op@)
                ==> final(self).spec_document()@ == old(self).spec_document()@.applied(op@),
    {
        let copy = op.clone();
        self.log.push(copy);
        assert(log_view(self.log@) =~= log_view(old(self).log@).push(op@));
        self.doc.apply(op);
    }

    /// The document of the replica.
    pub fn document(&self) -> (r: &Document)
        ensures
            *r == self.spec_document(),
    {
        &self.doc
    }

    /// The actor of the replica.
    pub fn actor(&self) -> (r: DocActor)
        ensures
            r == self.spec_actor(),
    {
        self.actor
    }

    /// The operations that the replica applied, oldest first.
    pub fn log(&self) -> (r: &Vec<DocumentOp>)
        ensures
            log_view(r@) == self.spec_log(),
    {
        &self.log
    }
}

/// The elements of the record that `Document::example` makes.
pub open spec fn example_members() -> Seq<Seq<u8>> {
    seq![
        "thing 1".spec_bytes(),
        "another thing".spec_bytes(),
        "who knows what this is".spec_bytes(),
    ]
}

/// The update that `Document::example` applies to the empty document.
pub open spec fn example_update() -> DocumentOpView {
    DocumentOpView::Up {
        dot: Dot { actor: 0, counter: 1 },
        key: 1,
        op: RecordOpView::Add {
            dot: Dot { actor: 0, counter: 1 },
            members: example_members(),
        },
    }
}

impl Document {
    /// A document with one record: key 1 holds three elements, all added by
    /// actor 0 as its first event.
    pub fn example() -> (doc: Self)
        ensures
            doc@ == DocumentView::empty().applied(example_update()),
            doc@.coherent(),
    {
        let mut doc = Document::default();
        let read_ctx = doc.get_read_ctx();
        let add_ctx = read_ctx.derive_add_ctx(0);
        let mut items: Vec<Vec<u8>> = Vec::new();
        items.push(slice_to_vec("thing 1".as_bytes()));
        items.push(slice_to_vec("another thing".as_bytes()));
        items.push(slice_to_vec("who knows what this is".as_bytes()));
        proof {
            assert(items.deep_view() =~= example_members()) by {
                assert forall|i: int| 0 <= i < 3 implies items.deep_view()[i]
                    == #[trigger] example_members()[i] by {
                    assert(items.deep_view()[i] == items[i].deep_view());
                    assert(items[i].deep_view() =~= items[i]@);
                }
            }
        }
        let add_items = |set: &OrswotRecord, ctx: AddCtx| -> (edit: RecordOp)
            ensures
                edit@ == (RecordOpView::Add { dot: ctx.dot, members: items.deep_view() }),
            {
                set.add_all(items, ctx)
            };
        let op = doc.update_record(1, add_ctx, add_items);
        assert(op@ == example_update());
        doc.apply(op);
        doc
    }

    /// The operation that edits the record under `key` as the event that
    /// `ctx` authorises. `f` writes the record's edit: it is given the record
    /// under `key`, or the empty record if the key is absent, and the
    /// context. The document itself is not changed: the operation has to be
    /// applied.
    pub fn update_record<F>(&mut self, key: u32, ctx: AddCtx, f: F) -> (op: DocumentOp) where
        F: FnOnce(&OrswotRecord, AddCtx) -> RecordOp,

        requires
            forall|record: OrswotRecord|
                record@ == old(self)@.record_at(key) ==> f.requires((&record, ctx)),
        ensures
            *final(self) == *old(self),
            exists|record: OrswotRecord, edit: RecordOp|
                record@ == old(self)@.record_at(key) && f.ensures((&record, ctx), edit) && op@ == (
                DocumentOpView::Up { dot: ctx.dot, key, op: edit@ }),
    {
        let dot = ctx.dot;
        let record = match get_from_map(&self.records, key).val {
            Some(found) => found,
            None => OrswotRecord::new(),
        };
        let edit = f(&record, ctx);
        DocumentOp::Up { dot, key, op: edit }
    }

    /// The aggregate clock, as the context of a read that carries no value.
    /// A writer derives from it the context for a write to any key, also one
    /// that the document does not hold yet.
    pub fn get_read_ctx(&self) -> (ctx: ReadCtx<()>)
        ensures
            ctx.add_clock@ == self@.clock,
            ctx.rm_clock@ == self@.clock,
    {
        read_ctx_of_map(&self.records)
    }

    /// The record under `key`, if the document holds the key, with the
    /// aggregate clock as `add_clock` and the entry's clock as `rm_clock`.
    pub fn get_record(&self, key: u32) -> (ctx: ReadCtx<Option<OrswotRecord>>)
        ensures
            ctx.add_clock@ == self@.clock,
            ctx.rm_clock@ == self@.entry_clock_at(key),
            (ctx.val is Some) == self@.entries.contains_key(key),
            ctx.val is Some ==> ctx.val->0@ == self@.entries[key].record,
    {
        get_from_map(&self.records, key)
    }

    /// Applies `op`.
    ///
    /// The aggregate clock never goes back, and after an update it has seen
    /// the update's dot. An update whose dot the document had seen changes
    /// nothing, so applying an update twice is applying it once. A foreseen
    /// operation gives `applied`: a removal of keys is applied, an update
    /// edits its record, and then every removal held back is applied again.
    /// Every operation on a settled document is foreseen, and an addition
    /// leaves a coherent document coherent.
    pub fn apply(&mut self, op: DocumentOp)
        ensures
            apply_outcome(old(self).records, op@, final(self).records),
            dominates(final(self)@.clock, old(self)@.clock),
            op@ is Up ==> witnessed(final(self)@.clock, op@->dot),
            op@ is Up && witnessed(old(self)@.clock, op@->dot) ==> *final(self) == *old(self),
            old(self)@.foreseen(op@) ==> final(self)@ == old(self)@.applied(op@),
            old(self)@.settled() ==> final(self)@ == old(self)@.applied(op@),
            op@.is_addition() && old(self)@.coherent() ==> final(self)@.coherent(),
    {
        proof {
            if self@.settled() {
                crate::document::laws::lemma_settled_applied(self@, op@);
            }
            crate::document::laws::lemma_applied_keeps_coherent(self@, op@);
        }
        apply_to_map(&mut self.records, op);
    }

    /// The keys that the document holds, ascending, each with the aggregate
    /// clock as `add_clock` and its entry's clock as `rm_clock`. The list is
    /// a snapshot: later edits do not show in it.
    pub fn doc_keys(&self) -> (keys: Vec<ReadCtx<u32>>)
        ensures
            keys@.len() == self@.entries.dom().len(),
            forall|i: int|
                0 <= i < keys@.len() ==> self@.entries.contains_key(#[trigger] keys@[i].val),
            forall|key: u32|
                self@.entries.contains_key(key) ==> exists|i: int|
                    0 <= i < keys@.len() && (#[trigger] keys@[i]).val == key,
            forall|i: int, j: int| 0 <= i < j < keys@.len() ==> keys@[i].val < keys@[j].val,
            forall|i: int|
                0 <= i < keys@.len() ==> (#[trigger] keys@[i]).add_clock@ == self@.clock
                    && keys@[i].rm_clock@ == self@.entries[keys@[i].val].clock,
    {
        keys_of_map(&self.records)
    }

    /// The same list as `doc_keys`.
    pub fn keys_vec(&self) -> (keys: Vec<ReadCtx<u32>>)
        ensures
            keys@.len() == self@.entries.dom().len(),
            forall|i: int|
                0 <= i < keys@.len() ==> self@.entries.contains_key(#[trigger] keys@[i].val),
            forall|key: u32|
                self@.entries.contains_key(key) ==> exists|i: int|
                    0 <= i < keys@.len() && (#[trigger] keys@[i]).val == key,
            forall|i: int, j: int| 0 <= i < j < keys@.len() ==> keys@[i].val < keys@[j].val,
            forall|i: int|
                0 <= i < keys@.len() ==> (#[trigger] keys@[i]).add_clock@ == self@.clock
                    && keys@[i].rm_clock@ == self@.entries[keys@[i].val].clock,
    {
        self.doc_keys()
    }
}

} // verus!
