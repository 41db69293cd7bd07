//! The write path: store a batch of keys with their values and index values.
//!
//! A call names a namespace, an expiry, the index names, and rows of a key, a
//! value and one index value for each index name. Nothing is sent to the store
//! before the whole call has been found well formed. Then, row by row: if the
//! key has metadata from an earlier write, it is cleaned first, so that it
//! can no longer be found under the index values it had; the value is written
//! with the expiry; the key is added to the index set of each of its pairs;
//! and the pairs are recorded as the key's metadata. A key without indices
//! gets no metadata.
//!
//! The metadata is written without an expiry of its own: it goes when the clean
//! operation runs for the key.
use crate::action::{ok, ok_reply, Action, ActionView, Machine};
use crate::clean::{CleanKey, CleanKeyView, CleanStage};
use crate::command::{Command, CommandView};
use crate::decimal::{parse_count, parsed};
use crate::error::{EngineError, ErrorView};
use crate::layout::{index_key, meta_key, prefixed, prefixed_idx, prefixed_meta, primary_key};
use crate::reply::{Reply, ReplyView};
use crate::sequences::{all_different, copy_range, interleave_strings, interleaved};
use vstd::prelude::*;

verus! {

/// One row of a call: a key, its value, and its value for each index.
#[derive(Debug, PartialEq, Eq)]
pub struct Row {
    pub key: String,
    pub value: String,
    pub index_values: Vec<String>,
}

/// The mathematical value of a [`Row`].
pub struct RowView {
    pub key: Seq<char>,
    pub value: Seq<char>,
    pub index_values: Seq<Seq<char>>,
}

impl View for Row {
    type V = RowView;

    open spec fn view(&self) -> RowView {
        RowView {
            key: self.key@,
            value: self.value@,
            index_values: self.index_values.deep_view(),
        }
    }
}

/// The views of a list of rows, one by one.
pub open spec fn row_views(rows: Seq<Row>) -> Seq<RowView> {
    Seq::new(rows.len(), |i: int| rows[i]@)
}

/// The rows that a flat list of words holds, `width` words to a row: the key,
/// the value, then the index values.
pub open spec fn rows_of(words: Seq<Seq<char>>, width: int) -> Seq<RowView> {
    Seq::new(
        (words.len() as int / width) as nat,
        |k: int|
            RowView {
                key: words[k * width],
                value: words[k * width + 1],
                index_values: words.subrange(k * width + 2, (k + 1) * width),
            },
    )
}

/// Where a write stands within its current row.
#[derive(Clone, Copy, Debug, PartialEq, Eq, Structural)]
pub enum SetStage {
    /// Is there metadata from an earlier write of the key?
    CheckMeta,
    /// There is: the key is being cleaned.
    PreClean,
    /// The value is to be written.
    WritePrimary,
    /// The key is to be added to the index set of one pair.
    AddIndex,
    /// The metadata is to be written.
    WriteMeta,
    /// Nothing is left to do.
    Finished,
}

/// An indexed write of a batch of rows, as a state machine.
#[derive(Debug)]
pub struct SetIndexed {
    namespace: String,
    expiry: String,
    indices: Vec<String>,
    rows: Vec<Row>,
    /// The current row.
    row: usize,
    stage: SetStage,
    /// The index whose set is next.
    index: usize,
    /// The clean operation for the key of the current row.
    clean: CleanKey,
    failure: Option<EngineError>,
}

/// The mathematical value of a [`SetIndexed`].
pub struct SetIndexedView {
    pub namespace: Seq<char>,
    pub expiry: Seq<char>,
    pub indices: Seq<Seq<char>>,
    pub rows: Seq<RowView>,
    pub row: nat,
    pub stage: SetStage,
    pub index: nat,
    pub clean: CleanKeyView,
    pub failure: Option<ErrorView>,
}

impl SetIndexedView {
    /// The write of `rows`, before its first command.
    pub open spec fn start(
        namespace: Seq<char>,
        expiry: Seq<char>,
        indices: Seq<Seq<char>>,
        rows: Seq<RowView>,
    ) -> Self {
        SetIndexedView {
            namespace,
            expiry,
            indices,
            rows,
            row: 0,
            stage: SetStage::Finished,
            index: 0,
            clean: CleanKeyView::start(namespace, Seq::empty()),
            failure: None,
        }.enter(0)
    }

    /// What a call asks for, or why it is refused. The first word is the
    /// command's own name; then come the namespace, the expiry, the number of
    /// index names, the index names, and the rows, of which there is at least
    /// one.
    pub open spec fn validated(args: Seq<Seq<char>>) -> Result<Self, ErrorView> {
        if args.len() < 4 {
            Err(ErrorView::WrongArity)
        } else if parsed(args[2]) is None || parsed(args[3]) is None {
            Err(ErrorView::NotANumber)
        } else {
            let count = parsed(args[3])->0 as int;
            let rest = args.skip(4);
            if rest.len() <= count || (rest.len() - count) % (count + 2) != 0 {
                Err(ErrorView::WrongArity)
            } else if !rest.take(count).no_duplicates() {
                Err(ErrorView::DuplicateIndex)
            } else {
                Ok(Self::start(args[1], args[2], rest.take(count), rows_of(rest.skip(count), count + 2)))
            }
        }
    }

    /// Every row has one value for each index, and what is pending exists.
    pub open spec fn well_formed(self) -> bool {
        &&& forall|r: int|
            0 <= r < self.rows.len() ==> (#[trigger] self.rows[r]).index_values.len()
                == self.indices.len()
        &&& self.stage != SetStage::Finished ==> self.row < self.rows.len()
        &&& self.stage == SetStage::AddIndex ==> self.index < self.indices.len()
    }

    /// The key of the current row.
    pub open spec fn key(self) -> Seq<char> {
        self.rows[self.row as int].key
    }

    /// The write at the beginning of row `row`, or at its end where there is
    /// no such row.
    pub open spec fn enter(self, row: nat) -> Self {
        if row < self.rows.len() {
            SetIndexedView {
                row,
                stage: SetStage::CheckMeta,
                index: 0,
                clean: CleanKeyView::start(self.namespace, self.rows[row as int].key),
                ..self
            }
        } else {
            SetIndexedView { row, stage: SetStage::Finished, ..self }
        }
    }

    /// The write at another stage of its row.
    pub open spec fn at_stage(self, stage: SetStage) -> Self {
        SetIndexedView { stage, ..self }
    }

    /// The write, ended by an error.
    pub open spec fn failed(self, error: ErrorView) -> Self {
        SetIndexedView { stage: SetStage::Finished, failure: Some(error), ..self }
    }

    /// The state that follows a reply which is no error, outside the clean
    /// operation.
    pub open spec fn advanced(self, reply: ReplyView) -> Self {
        match self.stage {
            SetStage::CheckMeta => match reply {
                ReplyView::Integer(n) => if n == 1 {
                    self.at_stage(SetStage::PreClean)
                } else {
                    self.at_stage(SetStage::WritePrimary)
                },
                _ => self.failed(ErrorView::NotAnInteger),
            },
            SetStage::WritePrimary => if self.indices.len() > 0 {
                SetIndexedView { stage: SetStage::AddIndex, index: 0, ..self }
            } else {
                self.enter(self.row + 1)
            },
            SetStage::AddIndex => if self.index + 1 < self.indices.len() {
                SetIndexedView { index: self.index + 1, ..self }
            } else {
                self.at_stage(SetStage::WriteMeta)
            },
            SetStage::WriteMeta => self.enter(self.row + 1),
            _ => self,
        }
    }
}

impl Machine for SetIndexedView {
    open spec fn pending(self) -> ActionView {
        let row = self.rows[self.row as int];
        match self.stage {
            SetStage::CheckMeta => ActionView::Call(
                CommandView::Exists { key: meta_key(self.namespace, row.key) },
            ),
            SetStage::PreClean => self.clean.pending(),
            SetStage::WritePrimary => ActionView::Call(
                CommandView::SetEx {
                    key: primary_key(self.namespace, row.key),
                    seconds: self.expiry,
                    value: row.value,
                },
            ),
            SetStage::AddIndex => ActionView::Call(
                CommandView::SAdd {
                    key: index_key(
                        self.namespace,
                        self.indices[self.index as int],
                        row.index_values[self.index as int],
                    ),
                    member: row.key,
                },
            ),
            SetStage::WriteMeta => ActionView::Call(
                CommandView::HMSet {
                    key: meta_key(self.namespace, row.key),
                    entries: interleaved(self.indices, row.index_values),
                },
            ),
            SetStage::Finished => ActionView::Done(
                match self.failure {
                    Some(error) => Err(error),
                    None => Ok(ok()),
                },
            ),
        }
    }

    open spec fn after(self, reply: ReplyView) -> Self {
        match self.stage {
            SetStage::Finished => self,
            SetStage::PreClean => {
                let clean = self.clean.after(reply);
                if clean.stage == CleanStage::Finished {
                    match clean.failure {
                        Some(error) => SetIndexedView { clean, ..self }.failed(error),
                        None => SetIndexedView { clean, ..self }.at_stage(SetStage::WritePrimary),
                    }
                } else {
                    SetIndexedView { clean, ..self }
                }
            },
            _ => match reply {
                ReplyView::Error(message) => self.failed(ErrorView::Store(message)),
                _ => self.advanced(reply),
            },
        }
    }
}

impl View for SetIndexed {
    type V = SetIndexedView;

    closed spec fn view(&self) -> SetIndexedView {
        SetIndexedView {
            namespace: self.namespace@,
            expiry: self.expiry@,
            indices: self.indices.deep_view(),
            rows: row_views(self.rows@),
            row: self.row as nat,
            stage: self.stage,
            index: self.index as nat,
            clean: self.clean@,
            failure: match self.failure {
                Some(error) => Some(error@),
                None => None,
            },
        }
    }
}

/// Parts a flat list of words into rows of `width` words.
fn split_rows(words: &Vec<String>, from: usize, width: usize) -> (rows: Vec<Row>)
    requires
        width >= 2,
        from <= words.len(),
        (words.len() - from) % (width as int) == 0,
    ensures
        row_views(rows@) == rows_of(words.deep_view().skip(from as int), width as int),
        forall|r: int| 0 <= r < rows.len() ==> (#[trigger] rows[r]).index_values.len() == width - 2,
        rows.len() * width == words.len() - from,
{
    let ghost rest = words.deep_view().skip(from as int);
    let ghost total = (words.len() - from) / (width as int);
    let mut rows: Vec<Row> = Vec::new();
    let mut offset: usize = from;
    proof {
        assert(total * width == words.len() - from) by (nonlinear_arith)
            requires
                (words.len() - from) % (width as int) == 0,
                total == (words.len() - from) / (width as int),
                width >= 2,
        ;
        assert(0 * width == 0) by (nonlinear_arith);
    }
    while offset < words.len()
        invariant
            width >= 2,
            from <= offset <= words.len(),
            rest == words.deep_view().skip(from as int),
            total == (words.len() - from) / (width as int),
            total * width == words.len() - from,
            offset - from == rows.len() * width,
            rows.len() <= total,
            forall|r: int| 0 <= r < rows.len() ==> (#[trigger] rows[r])@ == rows_of(rest, width as int)[r],
            forall|r: int|
                0 <= r < rows.len() ==> (#[trigger] rows[r]).index_values.len() == width - 2,
        decreases words.len() - offset,
    {
        let ghost k = rows.len() as int;
        proof {
            assert(k < total && (k + 1) * width == k * width + width && (k + 1) * width <= total
                * width) by (nonlinear_arith)
                requires
                    k * width < total * width,
                    0 <= k <= total,
                    width >= 2,
            ;
            assert(rest.len() as int / (width as int) == total) by {
                assert(rest.len() == words.len() - from);
            }
        }
        let index_values = copy_range(words, offset + 2, offset + width);
        let row = Row { key: words[offset].clone(), value: words[offset + 1].clone(), index_values };
        proof {
            let expected = rows_of(rest, width as int)[k];
            assert(expected.key == rest[k * width]);
            assert(rest[k * width] == words.deep_view()[offset as int]);
            assert(rest[k * width + 1] == words.deep_view()[offset + 1]);
            assert(rest.subrange(k * width + 2, (k + 1) * width) =~= words.deep_view().subrange(
                offset + 2,
                offset + width,
            ));
            assert(row@ == expected);
        }
        rows.push(row);
        offset += width;
    }
    proof {
        assert(rows.len() == total) by (nonlinear_arith)
            requires
                rows.len() * width == total * width,
                width >= 2,
        ;
        assert(rest.len() == words.len() - from);
        assert(row_views(rows@) =~= rows_of(rest, width as int));
    }
    rows
}

impl SetIndexed {
    #[verifier::type_invariant]
    spec fn inv(self) -> bool {
        self@.well_formed()
    }

    /// Reads a call. The first word is the command's own name; then come the
    /// namespace, the expiry in seconds, the number of index names, the index
    /// names, and the rows: for each a key, a value, and one index value for
    /// each index name.
    ///
    /// The call is refused, and nothing is sent to the store, where words
    /// are missing, the expiry or the number is no number, there is no row,
    /// the rows do not come out even, or an index name occurs twice.
    pub fn from(args: Vec<String>) -> (call: Result<Self, EngineError>)
        ensures
            match call {
                Ok(op) => SetIndexedView::validated(args.deep_view()) == Ok::<
                    SetIndexedView,
                    ErrorView,
                >(op@),
                Err(error) => SetIndexedView::validated(args.deep_view()) == Err::<
                    SetIndexedView,
                    ErrorView,
                >(error@),
            },
            call matches Err(error) ==> error@.is_validation(),
            call matches Ok(op) ==> op@.rows.len() > 0 && op@.stage == SetStage::CheckMeta,
    {
        if args.len() < 4 {
            return Err(EngineError::WrongArity);
        }
        let seconds = parse_count(args[2].as_str());
        let number = parse_count(args[3].as_str());
        if seconds.is_none() || number.is_none() {
            return Err(EngineError::NotANumber);
        }
        let number: u64 = number.unwrap();
        let remaining: usize = args.len() - 4;
        let ghost rest = args.deep_view().skip(4);
        if (remaining as u64) <= number {
            return Err(EngineError::WrongArity);
        }
        let count: usize = number as usize;
        if (remaining - count) % (count + 2) != 0 {
            return Err(EngineError::WrongArity);
        }
        let indices = copy_range(&args, 4, 4 + count);
        proof {
            assert(rest.take(count as int) =~= args.deep_view().subrange(4, 4 + count));
            assert(rest.skip(count as int) =~= args.deep_view().skip(4 + count));
        }
        if !all_different(&indices) {
            return Err(EngineError::DuplicateIndex);
        }
        let rows = split_rows(&args, 4 + count, count + 2);
        assert(rows.len() > 0) by (nonlinear_arith)
            requires
                rows.len() * (count + 2) == args.len() - (4 + count),
                args.len() - (4 + count) > 0,
        ;
        let namespace = args[1].clone();
        let first = if rows.len() > 0 {
            rows[0].key.clone()
        } else {
            String::new()
        };
        let stage = if rows.len() > 0 {
            SetStage::CheckMeta
        } else {
            SetStage::Finished
        };
        let clean = CleanKey::new(namespace.clone(), first);
        let op = SetIndexed {
            namespace,
            expiry: args[2].clone(),
            indices,
            rows,
            row: 0,
            stage,
            index: 0,
            clean,
            failure: None,
        };
        Ok(op)
    }

    /// Whether the write has ended.
    pub fn finished(&self) -> (ended: bool)
        ensures
            ended == (self@.stage == SetStage::Finished),
    {
        self.stage == SetStage::Finished
    }

    /// What the write waits for.
    pub fn action(&self) -> (action: Action)
        ensures
            action@ == self@.pending(),
    {
        proof {
            use_type_invariant(self);
        }
        if self.stage == SetStage::Finished {
            return match &self.failure {
                Some(error) => Action::Done(Err(error.clone())),
                None => Action::Done(Ok(ok_reply())),
            };
        }
        let row = &self.rows[self.row];
        assert(row@ == self@.rows[self.row as int]);
        let namespace = self.namespace.as_str();
        match self.stage {
            SetStage::CheckMeta => Action::Call(
                Command::Exists { key: prefixed_meta(namespace, row.key.as_str()) },
            ),
            SetStage::PreClean => self.clean.action(),
            SetStage::WritePrimary => Action::Call(
                Command::SetEx {
                    key: prefixed(namespace, row.key.as_str()),
                    seconds: self.expiry.clone(),
                    value: row.value.clone(),
                },
            ),
            SetStage::AddIndex => {
                assert(row.index_values.deep_view().len() == row.index_values.len());
                assert(self.indices.deep_view().len() == self.indices.len());
                let idx = &self.indices[self.index];
                let idx_val = &row.index_values[self.index];
                Action::Call(
                    Command::SAdd {
                        key: prefixed_idx(namespace, idx.as_str(), idx_val.as_str()),
                        member: row.key.clone(),
                    },
                )
            },
            _ => Action::Call(
                Command::HMSet {
                    key: prefixed_meta(namespace, row.key.as_str()),
                    entries: interleave_strings(&self.indices, &row.index_values),
                },
            ),
        }
    }

    /// Moves to the beginning of row `row`, or to the end where there is no
    /// such row.
    fn enter(&mut self, row: usize)
        ensures
            final(self)@ == old(self)@.enter(row as nat),
    {
        proof {
            use_type_invariant(&*self);
        }
        self.stage = SetStage::Finished;
        self.row = row;
        if row < self.rows.len() {
            self.index = 0;
            self.clean = CleanKey::new(self.namespace.clone(), self.rows[row].key.clone());
            self.stage = SetStage::CheckMeta;
        }
    }

    /// Ends the write with an error.
    fn fail(&mut self, error: EngineError)
        ensures
            final(self)@ == old(self)@.failed(error@),
    {
        proof {
            use_type_invariant(&*self);
        }
        self.stage = SetStage::Finished;
        self.failure = Some(error);
    }

    /// Takes the reply to the pending command, moves on, and says what the
    /// write waits for next.
    pub fn process(&mut self, reply: &Reply) -> (action: Action)
        ensures
            final(self)@ == old(self)@.after(reply@),
            action@ == final(self)@.pending(),
    {
        proof {
            use_type_invariant(&*self);
            assert(self.indices.deep_view().len() == self.indices.len());
            assert(self@.rows.len() == self.rows.len());
        }
        match self.stage {
            SetStage::Finished => {},
            SetStage::PreClean => {
                // The clean operation is taken out for its step and put back.
                let mut clean = CleanKey::new(String::new(), String::new());
                core::mem::swap(&mut self.clean, &mut clean);
                clean.process(reply);
                core::mem::swap(&mut self.clean, &mut clean);
                if self.clean.finished() {
                    match self.clean.failure() {
                        Some(error) => self.fail(error),
                        None => {
                            self.stage = SetStage::WritePrimary;
                        },
                    }
                }
            },
            _ => match reply {
                Reply::Error(message) => self.fail(EngineError::Store(message.clone())),
                _ => match self.stage {
                    SetStage::CheckMeta => match reply {
                        Reply::Integer(n) => {
                            self.stage = if *n == 1 {
                                SetStage::PreClean
                            } else {
                                SetStage::WritePrimary
                            };
                        },
                        _ => self.fail(EngineError::NotAnInteger),
                    },
                    SetStage::WritePrimary => {
                        if self.indices.len() > 0 {
                            self.index = 0;
                            self.stage = SetStage::AddIndex;
                        } else {
                            let next = self.row + 1;
                            self.enter(next);
                        }
                    },
                    SetStage::AddIndex => {
                        if self.index + 1 < self.indices.len() {
                            self.index = self.index + 1;
                        } else {
                            self.stage = SetStage::WriteMeta;
                        }
                    },
                    _ => {
                        let next = self.row + 1;
                        self.enter(next);
                    },
                },
            },
        }
        self.action()
    }
}

} // verus!
