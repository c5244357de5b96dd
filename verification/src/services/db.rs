//! The storage engine: three tables (contents, summaries, labels) and the
//! typed operations on them.
//!
//! [`Tables`] says what each operation does to the rows, and [`DB`] keeps
//! the rows as plain values and carries the operations out on them. For a
//! store behind a connection, [`statement`] writes each operation as a
//! statement with bound values; such a store is expected to answer a
//! statement as `Tables::answer` answers the request that it was written
//! for.

use crate::text::{decimal, decimal_remainder};
use vstd::prelude::*;

verus! {

/// Why a storage operation failed.
#[derive(Debug, Clone, Copy, PartialEq, Eq, Structural)]
pub enum StorageError {
    /// The store could not be reached.
    Connection,
    /// The store refused the row: a reference to a content that does not
    /// exist, or no identifier left to give.
    Constraint,
    /// The statement was malformed, or its answer did not have the shape
    /// that the operation expects.
    Statement,
}

/// The result code of the store for a refused row.
pub const CONSTRAINT_CODE: u32 = 19;

impl StorageError {
    /// The error behind a result code of the store, written in decimal
    /// digits. The low eight bits of the code tell its kind: a refused row
    /// is a constraint violation. Any other failure of a statement, and any
    /// text that writes no number, counts as a malformed statement.
    pub open spec fn of_code(code: Seq<char>) -> StorageError {
        match decimal(code) {
            Some(number) => if number % 256 == CONSTRAINT_CODE {
                StorageError::Constraint
            } else {
                StorageError::Statement
            },
            None => StorageError::Statement,
        }
    }

    /// Tells a constraint violation from other failures of a statement by
    /// the result code of the store.
    pub fn from_code(code: &str) -> (error: StorageError)
        ensures
            error == StorageError::of_code(code@),
    {
        match decimal_remainder(code, 256) {
            Some(kind) => {
                if kind == CONSTRAINT_CODE {
                    StorageError::Constraint
                } else {
                    StorageError::Statement
                }
            },
            None => StorageError::Statement,
        }
    }

    /// What `message` says of this error.
    pub open spec fn message_text(self) -> Seq<char> {
        match self {
            StorageError::Connection => "storage failed: connection lost"@,
            StorageError::Constraint => "storage failed: constraint violated"@,
            StorageError::Statement => "storage failed: malformed statement"@,
        }
    }

    /// A description of the error for the user.
    pub fn message(&self) -> (text: String)
        ensures
            text@ == self.message_text(),
    {
        match self {
            StorageError::Connection => String::from_str("storage failed: connection lost"),
            StorageError::Constraint => String::from_str("storage failed: constraint violated"),
            StorageError::Statement => String::from_str("storage failed: malformed statement"),
        }
    }
}

/// A row of the table `contents`.
#[derive(Debug, PartialEq, Eq)]
pub struct ContentRow {
    pub id: i32,
    pub title: String,
    pub content: String,
}

/// A row of the table `summaries`.
#[derive(Debug, PartialEq, Eq)]
pub struct SummaryRow {
    pub content_id: i32,
    pub content: String,
}

/// A row of the table `labels`.
#[derive(Debug, PartialEq, Eq)]
pub struct LabelRow {
    pub content_id: i32,
    pub name: String,
}

/// A `ContentRow` as the contracts see it: each text by its characters.
pub struct ContentRowView {
    pub id: i32,
    pub title: Seq<char>,
    pub content: Seq<char>,
}

/// A `SummaryRow` as the contracts see it: each text by its characters.
pub struct SummaryRowView {
    pub content_id: i32,
    pub content: Seq<char>,
}

/// A `LabelRow` as the contracts see it: each text by its characters.
pub struct LabelRowView {
    pub content_id: i32,
    pub name: Seq<char>,
}

impl View for ContentRow {
    type V = ContentRowView;

    open spec fn view(&self) -> ContentRowView {
        ContentRowView { id: self.id, title: self.title@, content: self.content@ }
    }
}

impl DeepView for ContentRow {
    type V = ContentRowView;

    open spec fn deep_view(&self) -> ContentRowView {
        self@
    }
}

impl View for SummaryRow {
    type V = SummaryRowView;

    open spec fn view(&self) -> SummaryRowView {
        SummaryRowView { content_id: self.content_id, content: self.content@ }
    }
}

impl DeepView for SummaryRow {
    type V = SummaryRowView;

    open spec fn deep_view(&self) -> SummaryRowView {
        self@
    }
}

impl View for LabelRow {
    type V = LabelRowView;

    open spec fn view(&self) -> LabelRowView {
        LabelRowView { content_id: self.content_id, name: self.name@ }
    }
}

impl DeepView for LabelRow {
    type V = LabelRowView;

    open spec fn deep_view(&self) -> LabelRowView {
        self@
    }
}

/// A content row joined with one of its summaries: identifier, title, body
/// and summary text.
pub type Summarized = (i32, Seq<char>, Seq<char>, Seq<char>);

/// The three tables, each row in the order of its insertion.
pub struct Tables {
    pub contents: Seq<ContentRowView>,
    pub summaries: Seq<SummaryRowView>,
    pub labels: Seq<LabelRowView>,
}

impl Tables {
    /// The tables of a store that nothing was written to.
    pub open spec fn empty() -> Tables {
        Tables { contents: Seq::empty(), summaries: Seq::empty(), labels: Seq::empty() }
    }

    /// Whether a content row has the identifier `id`.
    pub open spec fn has_content(self, id: i32) -> bool {
        exists|i: int| 0 <= i < self.contents.len() && (#[trigger] self.contents[i]).id == id
    }

    /// Identifiers grow along the content rows, so none occurs twice, and
    /// every summary and every label belongs to a content row.
    pub open spec fn wf(self) -> bool {
        &&& forall|i: int, j: int|
            0 <= i < j < self.contents.len() ==> (#[trigger] self.contents[i]).id < (
            #[trigger] self.contents[j]).id
        &&& forall|i: int|
            0 <= i < self.summaries.len() ==> self.has_content(
                (#[trigger] self.summaries[i]).content_id,
            )
        &&& forall|i: int|
            0 <= i < self.labels.len() ==> self.has_content((#[trigger] self.labels[i]).content_id)
    }

    /// No content has more than one summary.
    pub open spec fn one_summary_each(self) -> bool {
        forall|i: int, j: int|
            0 <= i < j < self.summaries.len() ==> (#[trigger] self.summaries[i]).content_id != (
            #[trigger] self.summaries[j]).content_id
    }

    /// The identifier that the next content row gets: one more than the
    /// largest so far, and 1 in an empty table.
    pub open spec fn next_id(self) -> int {
        if self.contents.len() == 0 {
            1
        } else {
            self.contents.last().id + 1
        }
    }

    /// Whether an identifier is left for one more content row.
    pub open spec fn has_room(self) -> bool {
        self.next_id() <= i32::MAX
    }

    /// The tables after one content row was appended.
    pub open spec fn with_content(self, title: Seq<char>, content: Seq<char>) -> Tables {
        Tables {
            contents: self.contents.push(
                ContentRowView { id: self.next_id() as i32, title, content },
            ),
            ..self
        }
    }

    /// Identifier and title of the content row that was inserted last, if
    /// there is a content row.
    pub open spec fn most_recent_content(self) -> Option<(i32, Seq<char>)> {
        if self.contents.len() == 0 {
            None
        } else {
            Some((self.contents.last().id, self.contents.last().title))
        }
    }

    /// The tables after one summary row was appended.
    pub open spec fn with_summary(self, content_id: i32, summary: Seq<char>) -> Tables {
        Tables {
            summaries: self.summaries.push(SummaryRowView { content_id, content: summary }),
            ..self
        }
    }

    /// The tables after one label row per name was appended, in the order
    /// of `names`.
    pub open spec fn with_labels(self, content_id: i32, names: Seq<Seq<char>>) -> Tables {
        Tables {
            labels: self.labels + names.map_values(
                |name: Seq<char>| LabelRowView { content_id, name },
            ),
            ..self
        }
    }

    /// The summaries of one content row, each joined with that row.
    pub open spec fn summaries_of(self, row: ContentRowView) -> Seq<Summarized> {
        self.summaries.filter(|s: SummaryRowView| s.content_id == row.id).map_values(
            |s: SummaryRowView| (row.id, row.title, row.content, s.content),
        )
    }

    /// The join of contents and summaries: for each content row in turn, one
    /// entry per summary of it. A content without a summary has no entry.
    pub open spec fn contents_with_summaries(self) -> Seq<Summarized> {
        self.contents.flat_map(|row: ContentRowView| self.summaries_of(row))
    }

    /// The names of the labels of one content, in the order of their
    /// insertion.
    pub open spec fn labels_for(self, content_id: i32) -> Seq<Seq<char>> {
        self.labels.filter(|l: LabelRowView| l.content_id == content_id).map_values(
            |l: LabelRowView| l.name,
        )
    }
}

/// The storage engine, with its three tables held as plain values.
pub struct DB {
    contents: Vec<ContentRow>,
    summaries: Vec<SummaryRow>,
    labels: Vec<LabelRow>,
}

impl View for DB {
    type V = Tables;

    closed spec fn view(&self) -> Tables {
        Tables {
            contents: self.contents.deep_view(),
            summaries: self.summaries.deep_view(),
            labels: self.labels.deep_view(),
        }
    }
}

impl DB {
    /// An engine with empty tables.
    pub fn new() -> (db: DB)
        ensures
            db@ == Tables::empty(),
            db@.wf(),
    {
        let db = DB { contents: Vec::new(), summaries: Vec::new(), labels: Vec::new() };
        assert(db@.contents =~= Seq::empty());
        assert(db@.summaries =~= Seq::empty());
        assert(db@.labels =~= Seq::empty());
        db
    }

    /// Whether a content row has the identifier `id`.
    pub fn has_content(&self, id: i32) -> (found: bool)
        ensures
            found == self@.has_content(id),
    {
        let mut i: usize = 0;
        while i < self.contents.len()
            invariant
                i <= self.contents.len(),
                forall|k: int| 0 <= k < i ==> (#[trigger] self@.contents[k]).id != id,
            decreases self.contents.len() - i,
        {
            if self.contents[i].id == id {
                assert(self@.contents[i as int].id == id);
                return true;
            }
            i = i + 1;
        }
        false
    }

    /// Appends one content row, under an identifier larger than every
    /// identifier in the table. Fails when no identifier is left.
    pub fn insert_content(&mut self, title: &str, content: &str) -> (result: Result<
        u64,
        StorageError,
    >)
        requires
            old(self)@.wf(),
        ensures
            final(self)@.wf(),
            old(self)@.has_room() ==> result == Ok::<u64, StorageError>(1)
                && final(self)@ == old(self)@.with_content(title@, content@),
            !old(self)@.has_room() ==> result == Err::<u64, StorageError>(
                StorageError::Constraint,
            ) && final(self)@ == old(self)@,
    {
        let n: usize = self.contents.len();
        let id: i32 = if n == 0 {
            1
        } else {
            let last: i32 = self.contents[n - 1].id;
            if last == i32::MAX {
                return Err(StorageError::Constraint);
            }
            last + 1
        };
        let ghost before = self@;
        self.contents.push(
            ContentRow { id, title: String::from_str(title), content: String::from_str(content) },
        );
        proof {
            let row = ContentRowView { id, title: title@, content: content@ };
            assert(self@.contents =~= before.contents.push(row));
            lemma_with_content_wf(before, title@, content@);
        }
        Ok(1)
    }

    /// Identifier and title of the content row with the largest identifier,
    /// or `None` where the table is empty.
    pub fn get_most_recent_content(&self) -> (result: Result<Option<(i32, String)>, StorageError>)
        requires
            self@.wf(),
        ensures
            result is Ok,
            result->Ok_0.deep_view() == self@.most_recent_content(),
            result->Ok_0 is None <==> self@.contents.len() == 0,
            result->Ok_0 matches Some(recent) ==> {
                &&& self@.has_content(recent.0)
                &&& forall|i: int|
                    0 <= i < self@.contents.len() ==> (#[trigger] self@.contents[i]).id <= recent.0
            },
    {
        let n: usize = self.contents.len();
        if n == 0 {
            Ok(None)
        } else {
            let row = &self.contents[n - 1];
            Ok(Some((row.id, row.title.clone())))
        }
    }

    /// Appends one summary row bound to `content_id`. Fails when no content
    /// row has that identifier.
    pub fn insert_summary(&mut self, content_id: i32, summary: &str) -> (result: Result<
        u64,
        StorageError,
    >)
        requires
            old(self)@.wf(),
        ensures
            final(self)@.wf(),
            old(self)@.has_content(content_id) ==> result == Ok::<u64, StorageError>(1)
                && final(self)@ == old(self)@.with_summary(content_id, summary@),
            !old(self)@.has_content(content_id) ==> result == Err::<u64, StorageError>(
                StorageError::Constraint,
            ) && final(self)@ == old(self)@,
    {
        if !self.has_content(content_id) {
            return Err(StorageError::Constraint);
        }
        let ghost before = self@;
        self.summaries.push(SummaryRow { content_id, content: String::from_str(summary) });
        proof {
            let row = SummaryRowView { content_id, content: summary@ };
            assert(self@.summaries =~= before.summaries.push(row));
            lemma_with_summary_wf(before, content_id, summary@);
        }
        Ok(1)
    }

    /// Appends one label row per label, each bound to `content_id`, one
    /// after the other in the order given, and returns how many rows were
    /// written. Fails at the first label when no content row has that
    /// identifier.
    pub fn insert_labels(&mut self, content_id: i32, labels: Vec<String>) -> (result: Result<
        u64,
        StorageError,
    >)
        requires
            old(self)@.wf(),
        ensures
            final(self)@.wf(),
            labels.len() == 0 || old(self)@.has_content(content_id) ==> result == Ok::<
                u64,
                StorageError,
            >(labels.len() as u64) && final(self)@ == old(self)@.with_labels(
                content_id,
                labels.deep_view(),
            ),
            !(labels.len() == 0 || old(self)@.has_content(content_id)) ==> result == Err::<
                u64,
                StorageError,
            >(StorageError::Constraint) && final(self)@ == old(self)@,
    {
        let ghost before = self@;
        let mut rows_affected: u64 = 0;
        let mut i: usize = 0;
        while i < labels.len()
            invariant
                i <= labels.len(),
                rows_affected == i,
                before == old(self)@,
                before.wf(),
                self@.wf(),
                i > 0 ==> before.has_content(content_id),
                self@ == before.with_labels(content_id, labels.deep_view().take(i as int)),
            decreases labels.len() - i,
        {
            if !self.has_content(content_id) {
                proof {
                    assert(self@.contents == before.contents);
                }
                return Err(StorageError::Constraint);
            }
            let ghost earlier = self@;
            self.labels.push(
                LabelRow { content_id, name: String::from_str(labels[i].as_str()) },
            );
            proof {
                let names = labels.deep_view();
                let row = LabelRowView { content_id, name: names[i as int] };
                assert(self@.labels =~= earlier.labels.push(row));
                assert(self@.labels =~= before.with_labels(content_id, names.take(i + 1)).labels);
                lemma_with_labels_wf(before, content_id, names.take(i + 1));
            }
            rows_affected = rows_affected + 1;
            i = i + 1;
        }
        proof {
            assert(labels.deep_view().take(labels.len() as int) =~= labels.deep_view());
        }
        Ok(rows_affected)
    }

    /// Every content row that has a summary, joined with it, in the order
    /// of the content rows.
    pub fn get_contents_w_summaries(&self) -> (result: Result<
        Vec<(i32, String, String, String)>,
        StorageError,
    >)
        requires
            self@.wf(),
        ensures
            result is Ok,
            result->Ok_0.deep_view() == self@.contents_with_summaries(),
    {
        let ghost tables = self@;
        let ghost join = |row: ContentRowView| tables.summaries_of(row);
        let mut out: Vec<(i32, String, String, String)> = Vec::new();
        let mut i: usize = 0;
        while i < self.contents.len()
            invariant
                i <= self.contents.len(),
                tables == self@,
                join == |row: ContentRowView| tables.summaries_of(row),
                out.deep_view() == tables.contents.take(i as int).flat_map(join),
            decreases self.contents.len() - i,
        {
            let row = &self.contents[i];
            let ghost done = out.deep_view();
            let ghost of_row = |s: SummaryRowView| s.content_id == row@.id;
            let ghost pair = |s: SummaryRowView| (row@.id, row@.title, row@.content, s.content);
            let mut j: usize = 0;
            proof {
                reveal(Seq::filter);
            }
            while j < self.summaries.len()
                invariant
                    j <= self.summaries.len(),
                    i < self.contents.len(),
                    tables == self@,
                    row == &self.contents[i as int],
                    of_row == |s: SummaryRowView| s.content_id == row@.id,
                    pair == |s: SummaryRowView| (row@.id, row@.title, row@.content, s.content),
                    out.deep_view() == done + tables.summaries.take(j as int).filter(
                        of_row,
                    ).map_values(pair),
                decreases self.summaries.len() - j,
            {
                let summary = &self.summaries[j];
                let ghost so_far = out.deep_view();
                proof {
                    assert(tables.summaries.take(j + 1) =~= tables.summaries.take(j as int).push(
                        summary@,
                    ));
                    tables.summaries.take(j as int).lemma_filter_push(summary@, of_row);
                }
                if summary.content_id == row.id {
                    out.push(
                        (row.id, row.title.clone(), row.content.clone(), summary.content.clone()),
                    );
                    proof {
                        assert(out.deep_view() =~= so_far.push(pair(summary@)));
                    }
                }
                j = j + 1;
            }
            proof {
                assert(tables.summaries.take(self.summaries.len() as int) =~= tables.summaries);
                assert(tables.contents.take(i + 1) =~= tables.contents.take(i as int).push(row@));
                tables.contents.take(i as int).lemma_flat_map_push(join, row@);
            }
            i = i + 1;
        }
        proof {
            assert(tables.contents.take(self.contents.len() as int) =~= tables.contents);
        }
        Ok(out)
    }

    /// The names of all labels of the content `content_id`, in the order of
    /// their insertion.
    pub fn get_labels(&self, content_id: i32) -> (result: Result<Vec<String>, StorageError>)
        requires
            self@.wf(),
        ensures
            result is Ok,
            result->Ok_0.deep_view() == self@.labels_for(content_id),
    {
        let ghost tables = self@;
        let ghost owned = |l: LabelRowView| l.content_id == content_id;
        let ghost name = |l: LabelRowView| l.name;
        let mut out: Vec<String> = Vec::new();
        let mut i: usize = 0;
        proof {
            reveal(Seq::filter);
        }
        while i < self.labels.len()
            invariant
                i <= self.labels.len(),
                tables == self@,
                owned == |l: LabelRowView| l.content_id == content_id,
                name == |l: LabelRowView| l.name,
                out.deep_view() == tables.labels.take(i as int).filter(owned).map_values(name),
            decreases self.labels.len() - i,
        {
            let label = &self.labels[i];
            let ghost so_far = out.deep_view();
            proof {
                assert(tables.labels.take(i + 1) =~= tables.labels.take(i as int).push(label@));
                tables.labels.take(i as int).lemma_filter_push(label@, owned);
            }
            if label.content_id == content_id {
                out.push(label.name.clone());
                proof {
                    assert(out.deep_view() =~= so_far.push(label@.name));
                }
            }
            i = i + 1;
        }
        proof {
            assert(tables.labels.take(self.labels.len() as int) =~= tables.labels);
        }
        Ok(out)
    }
}

/// One operation asked of the store.
#[derive(Debug, PartialEq, Eq)]
pub enum StorageRequest {
    /// Append one content row.
    InsertContent { title: String, content: String },
    /// Read identifier and title of the content row with the largest
    /// identifier.
    MostRecentContent,
    /// Append one summary row bound to a content.
    InsertSummary { content_id: i32, summary: String },
    /// Append one label row bound to a content.
    InsertLabel { content_id: i32, name: String },
    /// Read the join of contents and summaries.
    ContentsWithSummaries,
    /// Read the names of the labels of one content.
    Labels { content_id: i32 },
}

/// What the store answers to one operation.
#[derive(Debug, PartialEq, Eq)]
pub enum StorageReply {
    /// A write was applied to this many rows.
    RowsAffected(u64),
    /// Identifier and title of the most recent content, if any.
    MostRecentContent(Option<(i32, String)>),
    /// The join of contents and summaries.
    ContentsWithSummaries(Vec<(i32, String, String, String)>),
    /// The names of the labels of one content.
    Labels(Vec<String>),
    /// The operation failed.
    Failed(StorageError),
}

/// A `StorageRequest` as the contracts see it: each text by its characters.
pub enum StorageRequestView {
    InsertContent { title: Seq<char>, content: Seq<char> },
    MostRecentContent,
    InsertSummary { content_id: i32, summary: Seq<char> },
    InsertLabel { content_id: i32, name: Seq<char> },
    ContentsWithSummaries,
    Labels { content_id: i32 },
}

/// A `StorageReply` as the contracts see it: each text by its characters.
pub enum StorageReplyView {
    RowsAffected(u64),
    MostRecentContent(Option<(i32, Seq<char>)>),
    ContentsWithSummaries(Seq<Summarized>),
    Labels(Seq<Seq<char>>),
    Failed(StorageError),
}

impl View for StorageRequest {
    type V = StorageRequestView;

    open spec fn view(&self) -> StorageRequestView {
        match self {
            StorageRequest::InsertContent { title, content } => StorageRequestView::InsertContent {
                title: title@,
                content: content@,
            },
            StorageRequest::MostRecentContent => StorageRequestView::MostRecentContent,
            StorageRequest::InsertSummary { content_id, summary } => {
                StorageRequestView::InsertSummary { content_id: *content_id, summary: summary@ }
            },
            StorageRequest::InsertLabel { content_id, name } => StorageRequestView::InsertLabel {
                content_id: *content_id,
                name: name@,
            },
            StorageRequest::ContentsWithSummaries => StorageRequestView::ContentsWithSummaries,
            StorageRequest::Labels { content_id } => StorageRequestView::Labels {
                content_id: *content_id,
            },
        }
    }
}

impl View for StorageReply {
    type V = StorageReplyView;

    open spec fn view(&self) -> StorageReplyView {
        match self {
            StorageReply::RowsAffected(n) => StorageReplyView::RowsAffected(*n),
            StorageReply::MostRecentContent(recent) => StorageReplyView::MostRecentContent(
                recent.deep_view(),
            ),
            StorageReply::ContentsWithSummaries(rows) => StorageReplyView::ContentsWithSummaries(
                rows.deep_view(),
            ),
            StorageReply::Labels(names) => StorageReplyView::Labels(names.deep_view()),
            StorageReply::Failed(error) => StorageReplyView::Failed(*error),
        }
    }
}

impl Tables {
    /// What the store does on one request: the tables afterwards, and its
    /// answer. A write that the store refuses changes nothing.
    pub open spec fn answer(self, request: StorageRequestView) -> (Tables, StorageReplyView) {
        match request {
            StorageRequestView::InsertContent { title, content } => if self.has_room() {
                (self.with_content(title, content), StorageReplyView::RowsAffected(1))
            } else {
                (self, StorageReplyView::Failed(StorageError::Constraint))
            },
            StorageRequestView::MostRecentContent => (
                self,
                StorageReplyView::MostRecentContent(self.most_recent_content()),
            ),
            StorageRequestView::InsertSummary { content_id, summary } => if self.has_content(
                content_id,
            ) {
                (self.with_summary(content_id, summary), StorageReplyView::RowsAffected(1))
            } else {
                (self, StorageReplyView::Failed(StorageError::Constraint))
            },
            StorageRequestView::InsertLabel { content_id, name } => if self.has_content(
                content_id,
            ) {
                (self.with_labels(content_id, seq![name]), StorageReplyView::RowsAffected(1))
            } else {
                (self, StorageReplyView::Failed(StorageError::Constraint))
            },
            StorageRequestView::ContentsWithSummaries => (
                self,
                StorageReplyView::ContentsWithSummaries(self.contents_with_summaries()),
            ),
            StorageRequestView::Labels { content_id } => (
                self,
                StorageReplyView::Labels(self.labels_for(content_id)),
            ),
        }
    }
}

impl DB {
    /// Carries out one request on the tables and gives the answer.
    pub fn perform(&mut self, request: &StorageRequest) -> (reply: StorageReply)
        requires
            old(self)@.wf(),
        ensures
            final(self)@.wf(),
            (final(self)@, reply@) == old(self)@.answer(request@),
    {
        match request {
            StorageRequest::InsertContent { title, content } => {
                match self.insert_content(title.as_str(), content.as_str()) {
                    Ok(n) => StorageReply::RowsAffected(n),
                    Err(error) => StorageReply::Failed(error),
                }
            },
            StorageRequest::MostRecentContent => {
                match self.get_most_recent_content() {
                    Ok(recent) => StorageReply::MostRecentContent(recent),
                    Err(error) => StorageReply::Failed(error),
                }
            },
            StorageRequest::InsertSummary { content_id, summary } => {
                match self.insert_summary(*content_id, summary.as_str()) {
                    Ok(n) => StorageReply::RowsAffected(n),
                    Err(error) => StorageReply::Failed(error),
                }
            },
            StorageRequest::InsertLabel { content_id, name } => {
                let mut names: Vec<String> = Vec::new();
                names.push(name.clone());
                assert(names.deep_view() =~= seq![name@]);
                match self.insert_labels(*content_id, names) {
                    Ok(n) => StorageReply::RowsAffected(n),
                    Err(error) => StorageReply::Failed(error),
                }
            },
            StorageRequest::ContentsWithSummaries => {
                match self.get_contents_w_summaries() {
                    Ok(rows) => StorageReply::ContentsWithSummaries(rows),
                    Err(error) => StorageReply::Failed(error),
                }
            },
            StorageRequest::Labels { content_id } => {
                match self.get_labels(*content_id) {
                    Ok(names) => StorageReply::Labels(names),
                    Err(error) => StorageReply::Failed(error),
                }
            },
        }
    }
}

/// The statement that appends a content row.
pub const INSERT_CONTENT: &'static str = "INSERT INTO contents (title, content) VALUES (?, ?)";

/// The statement that reads identifier and title of the content row with
/// the largest identifier.
pub const MOST_RECENT_CONTENT: &'static str =
    "SELECT id, title FROM contents WHERE id = (SELECT MAX(id) FROM contents)";

/// The statement that appends a summary row.
pub const INSERT_SUMMARY: &'static str =
    "INSERT INTO summaries (content_id, content) VALUES (?, ?)";

/// The statement that appends a label row.
pub const INSERT_LABEL: &'static str = "INSERT INTO labels (content_id, name) VALUES (?, ?)";

/// The statement that joins contents and summaries, in the order of the
/// contents and, for one content, of its summaries.
pub const CONTENTS_WITH_SUMMARIES: &'static str =
    "SELECT contents.id, contents.title, contents.content, summaries.content FROM contents INNER JOIN summaries ON summaries.content_id = contents.id ORDER BY contents.id, summaries.rowid";

/// The statement that reads the names of the labels of one content, in the
/// order of their insertion.
pub const LABELS: &'static str = "SELECT name FROM labels WHERE content_id = ? ORDER BY rowid";

/// A value bound to a placeholder of a statement.
#[derive(Debug, PartialEq, Eq)]
pub enum Parameter {
    Integer(i32),
    Text(String),
}

/// A `Parameter` as the contracts see it: each text by its characters.
pub enum ParameterView {
    Integer(i32),
    Text(Seq<char>),
}

impl View for Parameter {
    type V = ParameterView;

    open spec fn view(&self) -> ParameterView {
        match self {
            Parameter::Integer(n) => ParameterView::Integer(*n),
            Parameter::Text(text) => ParameterView::Text(text@),
        }
    }
}

impl DeepView for Parameter {
    type V = ParameterView;

    open spec fn deep_view(&self) -> ParameterView {
        self@
    }
}

/// A statement for the store: its text, with one `?` per value, and the
/// values in the order of their placeholders. No value is ever written into
/// the text.
#[derive(Debug, PartialEq, Eq)]
pub struct Statement {
    pub sql: String,
    pub parameters: Vec<Parameter>,
}

/// A `Statement` as the contracts see it: each text by its characters.
pub struct StatementView {
    pub sql: Seq<char>,
    pub parameters: Seq<ParameterView>,
}

impl View for Statement {
    type V = StatementView;

    open spec fn view(&self) -> StatementView {
        StatementView { sql: self.sql@, parameters: self.parameters.deep_view() }
    }
}

/// The statement that carries out `request`.
pub open spec fn statement_of(request: StorageRequestView) -> StatementView {
    match request {
        StorageRequestView::InsertContent { title, content } => StatementView {
            sql: INSERT_CONTENT@,
            parameters: seq![ParameterView::Text(title), ParameterView::Text(content)],
        },
        StorageRequestView::MostRecentContent => StatementView {
            sql: MOST_RECENT_CONTENT@,
            parameters: Seq::empty(),
        },
        StorageRequestView::InsertSummary { content_id, summary } => StatementView {
            sql: INSERT_SUMMARY@,
            parameters: seq![ParameterView::Integer(content_id), ParameterView::Text(summary)],
        },
        StorageRequestView::InsertLabel { content_id, name } => StatementView {
            sql: INSERT_LABEL@,
            parameters: seq![ParameterView::Integer(content_id), ParameterView::Text(name)],
        },
        StorageRequestView::ContentsWithSummaries => StatementView {
            sql: CONTENTS_WITH_SUMMARIES@,
            parameters: Seq::empty(),
        },
        StorageRequestView::Labels { content_id } => StatementView {
            sql: LABELS@,
            parameters: seq![ParameterView::Integer(content_id)],
        },
    }
}

/// The values of a statement with two placeholders.
fn two(first: Parameter, second: Parameter) -> (parameters: Vec<Parameter>)
    ensures
        parameters.deep_view() == seq![first@, second@],
{
    let mut parameters: Vec<Parameter> = Vec::new();
    parameters.push(first);
    parameters.push(second);
    parameters
}

/// The values of a statement with one placeholder.
fn one(only: Parameter) -> (parameters: Vec<Parameter>)
    ensures
        parameters.deep_view() == seq![only@],
{
    let mut parameters: Vec<Parameter> = Vec::new();
    parameters.push(only);
    parameters
}

/// The values of a statement without placeholders.
fn none() -> (parameters: Vec<Parameter>)
    ensures
        parameters.deep_view() == Seq::<ParameterView>::empty(),
{
    let parameters: Vec<Parameter> = Vec::new();
    parameters
}

/// Writes `request` as a statement with bound values.
pub fn statement(request: &StorageRequest) -> (statement: Statement)
    ensures
        statement@ == statement_of(request@),
{
    match request {
        StorageRequest::InsertContent { title, content } => Statement {
            sql: String::from_str(INSERT_CONTENT),
            parameters: two(Parameter::Text(title.clone()), Parameter::Text(content.clone())),
        },
        StorageRequest::MostRecentContent => Statement {
            sql: String::from_str(MOST_RECENT_CONTENT),
            parameters: none(),
        },
        StorageRequest::InsertSummary { content_id, summary } => Statement {
            sql: String::from_str(INSERT_SUMMARY),
            parameters: two(Parameter::Integer(*content_id), Parameter::Text(summary.clone())),
        },
        StorageRequest::InsertLabel { content_id, name } => Statement {
            sql: String::from_str(INSERT_LABEL),
            parameters: two(Parameter::Integer(*content_id), Parameter::Text(name.clone())),
        },
        StorageRequest::ContentsWithSummaries => Statement {
            sql: String::from_str(CONTENTS_WITH_SUMMARIES),
            parameters: none(),
        },
        StorageRequest::Labels { content_id } => Statement {
            sql: String::from_str(LABELS),
            parameters: one(Parameter::Integer(*content_id)),
        },
    }
}

/// How the store keeps its journal.
#[derive(Debug, Clone, Copy, PartialEq, Eq, Structural)]
pub enum JournalMode {
    Delete,
    Truncate,
    Persist,
    Memory,
    Wal,
    Off,
}

/// How the store is opened.
#[derive(Debug, PartialEq, Eq)]
pub struct ConnectOptions {
    /// Where the store is.
    pub url: String,
    /// Whether references between tables are enforced.
    pub foreign_keys: bool,
    /// How the journal is kept.
    pub journal_mode: JournalMode,
}

/// The options under which the store at `database_url` is opened: with
/// references between tables enforced, and a write-ahead log.
pub fn connect_options(database_url: &str) -> (options: ConnectOptions)
    ensures
        options.url@ == database_url@,
        options.foreign_keys,
        options.journal_mode == JournalMode::Wal,
{
    ConnectOptions {
        url: String::from_str(database_url),
        foreign_keys: true,
        journal_mode: JournalMode::Wal,
    }
}

/// Appending a content row keeps the tables well formed, as long as an
/// identifier is left.
pub proof fn lemma_with_content_wf(tables: Tables, title: Seq<char>, content: Seq<char>)
    requires
        tables.wf(),
        tables.has_room(),
    ensures
        tables.with_content(title, content).wf(),
        tables.with_content(title, content).has_content(tables.next_id() as i32),
        !tables.has_content(tables.next_id() as i32),
        forall|id: i32|
            tables.has_content(id) ==> #[trigger] tables.with_content(title, content).has_content(
                id,
            ) && id < tables.next_id(),
{
    let after = tables.with_content(title, content);
    let n = tables.contents.len() as int;
    assert(after.contents[n].id == tables.next_id());
    assert forall|id: i32| tables.has_content(id) implies #[trigger] after.has_content(id) && id
        < tables.next_id() by {
        let i = choose|i: int| 0 <= i < tables.contents.len() && (#[trigger] tables.contents[i]).id
            == id;
        assert(after.contents[i].id == id);
    }
}

/// Tables with the same content rows have the same contents.
pub proof fn lemma_same_contents(before: Tables, after: Tables)
    requires
        before.contents == after.contents,
    ensures
        forall|id: i32| before.has_content(id) == #[trigger] after.has_content(id),
{
    assert forall|id: i32| before.has_content(id) == #[trigger] after.has_content(id) by {
        if before.has_content(id) {
            let i = choose|i: int|
                0 <= i < before.contents.len() && (#[trigger] before.contents[i]).id == id;
            assert(after.contents[i].id == id);
        }
        if after.has_content(id) {
            let i = choose|i: int|
                0 <= i < after.contents.len() && (#[trigger] after.contents[i]).id == id;
            assert(before.contents[i].id == id);
        }
    }
}

/// Appending a summary of an existing content keeps the tables well formed.
pub proof fn lemma_with_summary_wf(tables: Tables, content_id: i32, summary: Seq<char>)
    requires
        tables.wf(),
        tables.has_content(content_id),
    ensures
        tables.with_summary(content_id, summary).wf(),
{
    let after = tables.with_summary(content_id, summary);
    lemma_same_contents(tables, after);
}

/// Appending labels of an existing content keeps the tables well formed;
/// appending none does so in any case.
pub proof fn lemma_with_labels_wf(tables: Tables, content_id: i32, names: Seq<Seq<char>>)
    requires
        tables.wf(),
        names.len() == 0 || tables.has_content(content_id),
    ensures
        tables.with_labels(content_id, names).wf(),
{
    let after = tables.with_labels(content_id, names);
    lemma_same_contents(tables, after);
}

/// A filter that every element fails lets nothing pass.
pub proof fn lemma_filter_rejects_all<A>(s: Seq<A>, pred: spec_fn(A) -> bool)
    requires
        forall|i: int| 0 <= i < s.len() ==> !pred(#[trigger] s[i]),
    ensures
        s.filter(pred) == Seq::<A>::empty(),
    decreases s.len(),
{
    reveal(Seq::filter);
    if s.len() > 0 {
        let front = s.drop_last();
        lemma_filter_rejects_all(front, pred);
    }
}

/// A filter that every element passes changes nothing.
pub proof fn lemma_filter_keeps_all<A>(s: Seq<A>, pred: spec_fn(A) -> bool)
    requires
        forall|i: int| 0 <= i < s.len() ==> pred(#[trigger] s[i]),
    ensures
        s.filter(pred) == s,
    decreases s.len(),
{
    reveal(Seq::filter);
    if s.len() > 0 {
        let front = s.drop_last();
        lemma_filter_keeps_all(front, pred);
    }
}

/// In well-formed tables the most recent content is a row of the table, and
/// no row has a larger identifier. An empty table has no most recent
/// content.
pub proof fn lemma_most_recent_is_largest(tables: Tables)
    requires
        tables.wf(),
    ensures
        tables.most_recent_content() is None <==> tables.contents.len() == 0,
        tables.most_recent_content() matches Some(recent) ==> {
            &&& tables.has_content(recent.0)
            &&& forall|i: int|
                0 <= i < tables.contents.len() ==> (#[trigger] tables.contents[i]).id <= recent.0
        },
{
}

/// Right after a content row was written, the most recent content is that
/// row: reading it back recovers the identifier that the row was given.
pub proof fn lemma_most_recent_after_insert(tables: Tables, title: Seq<char>, content: Seq<char>)
    requires
        tables.wf(),
        tables.has_room(),
    ensures
        tables.with_content(title, content).most_recent_content() == Some(
            (tables.next_id() as i32, title),
        ),
        forall|i: int|
            0 <= i < tables.contents.len() ==> (#[trigger] tables.contents[i]).id
                < tables.next_id(),
{
    lemma_with_content_wf(tables, title, content);
}

/// The tables after one content row per entry of `entries` was written, in
/// their order. An entry is a title and a body.
pub open spec fn with_contents(tables: Tables, entries: Seq<(Seq<char>, Seq<char>)>) -> Tables
    decreases entries.len(),
{
    if entries.len() == 0 {
        tables
    } else {
        with_contents(tables, entries.drop_last()).with_content(entries.last().0, entries.last().1)
    }
}

/// After any number of inserts into well-formed tables, as long as the
/// identifiers last, the most recent content is the row that was written
/// last, and it has the largest identifier of all rows.
pub proof fn lemma_most_recent_after_inserts(tables: Tables, entries: Seq<(Seq<char>, Seq<char>)>)
    requires
        tables.wf(),
        entries.len() > 0,
        tables.next_id() + entries.len() - 1 <= i32::MAX,
    ensures
        with_contents(tables, entries).wf(),
        with_contents(tables, entries).contents.len() == tables.contents.len() + entries.len(),
        with_contents(tables, entries).next_id() == tables.next_id() + entries.len(),
        with_contents(tables, entries).most_recent_content() == Some(
            ((tables.next_id() + entries.len() - 1) as i32, entries.last().0),
        ),
        forall|i: int|
            0 <= i < with_contents(tables, entries).contents.len() ==> (#[trigger] with_contents(
                tables,
                entries,
            ).contents[i]).id <= tables.next_id() + entries.len() - 1,
    decreases entries.len(),
{
    let front = entries.drop_last();
    let before = with_contents(tables, front);
    if front.len() > 0 {
        lemma_most_recent_after_inserts(tables, front);
    }
    lemma_with_content_wf(before, entries.last().0, entries.last().1);
    lemma_most_recent_after_insert(before, entries.last().0, entries.last().1);
    lemma_most_recent_is_largest(with_contents(tables, entries));
}

/// Labels written for a content come back behind the labels that it had,
/// in the order in which they were given; where it had none, they are all
/// its labels. The labels of every other content stay as they were.
pub proof fn lemma_labels_after_insert(
    tables: Tables,
    content_id: i32,
    names: Seq<Seq<char>>,
    other: i32,
)
    ensures
        tables.with_labels(content_id, names).labels_for(content_id) == tables.labels_for(
            content_id,
        ) + names,
        tables.labels_for(content_id).len() == 0 ==> tables.with_labels(
            content_id,
            names,
        ).labels_for(content_id) == names,
        other != content_id ==> tables.with_labels(content_id, names).labels_for(other)
            == tables.labels_for(other),
{
    let rows = names.map_values(|name: Seq<char>| LabelRowView { content_id, name });
    let own = |l: LabelRowView| l.content_id == content_id;
    let others = |l: LabelRowView| l.content_id == other;
    Seq::filter_distributes_over_add(tables.labels, rows, own);
    lemma_filter_keeps_all(rows, own);
    if other != content_id {
        Seq::filter_distributes_over_add(tables.labels, rows, others);
        lemma_filter_rejects_all(rows, others);
    }
}

/// A content row without a summary does not show in the join: writing a
/// content row leaves the join as it was.
pub proof fn lemma_join_after_content(tables: Tables, title: Seq<char>, content: Seq<char>)
    requires
        tables.wf(),
        tables.has_room(),
    ensures
        tables.with_content(title, content).contents_with_summaries()
            == tables.contents_with_summaries(),
{
    let after = tables.with_content(title, content);
    let row = ContentRowView { id: tables.next_id() as i32, title, content };
    let join = |row: ContentRowView| tables.summaries_of(row);
    let join_after = |row: ContentRowView| after.summaries_of(row);
    lemma_with_content_wf(tables, title, content);
    assert(tables.contents.map_values(join_after) =~= tables.contents.map_values(join));
    tables.contents.lemma_flat_map_push(join_after, row);
    let of_row = |s: SummaryRowView| s.content_id == row.id;
    lemma_filter_rejects_all(tables.summaries, of_row);
}

/// The first summary of the newest content adds one entry at the end of
/// the join: that content with that summary.
pub proof fn lemma_join_after_summary(tables: Tables, summary: Seq<char>)
    requires
        tables.wf(),
        tables.contents.len() > 0,
        forall|i: int|
            0 <= i < tables.summaries.len() ==> (#[trigger] tables.summaries[i]).content_id
                != tables.contents.last().id,
    ensures
        tables.with_summary(tables.contents.last().id, summary).contents_with_summaries()
            == tables.contents_with_summaries().push(
            (
                tables.contents.last().id,
                tables.contents.last().title,
                tables.contents.last().content,
                summary,
            ),
        ),
{
    let newest = tables.contents.last();
    let after = tables.with_summary(newest.id, summary);
    let added = SummaryRowView { content_id: newest.id, content: summary };
    let older = tables.contents.drop_last();
    let join = |row: ContentRowView| tables.summaries_of(row);
    let join_after = |row: ContentRowView| after.summaries_of(row);
    assert(older.push(newest) =~= tables.contents);
    assert forall|i: int| 0 <= i < older.len() implies #[trigger] join_after(older[i]) == join(
        older[i],
    ) by {
        let row = older[i];
        let of_row = |s: SummaryRowView| s.content_id == row.id;
        tables.summaries.lemma_filter_push(added, of_row);
    }
    assert(older.map_values(join_after) =~= older.map_values(join));
    older.lemma_flat_map_push(join_after, newest);
    older.lemma_flat_map_push(join, newest);
    let of_newest = |s: SummaryRowView| s.content_id == newest.id;
    lemma_filter_rejects_all(tables.summaries, of_newest);
    tables.summaries.lemma_filter_push(added, of_newest);
}

/// Writing labels leaves the join of contents and summaries as it was.
pub proof fn lemma_join_after_labels(tables: Tables, content_id: i32, names: Seq<Seq<char>>)
    ensures
        tables.with_labels(content_id, names).contents_with_summaries()
            == tables.contents_with_summaries(),
{
    let after = tables.with_labels(content_id, names);
    let join = |row: ContentRowView| tables.summaries_of(row);
    let join_after = |row: ContentRowView| after.summaries_of(row);
    assert(tables.contents.map_values(join_after) =~= tables.contents.map_values(join));
}

} // verus!
