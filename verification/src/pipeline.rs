//! The enrichment pipeline: the fixed order of storage and generation steps
//! that turns a submission into an enriched record, and the assembly of the
//! enriched records for listing.
//!
//! Each workflow is a machine that is moved by events. It asks for one
//! operation at a time, of the store or of the generation service; whoever
//! runs it carries the operation out and hands the answer back.

use crate::services::db::{
    StorageError, StorageReply, StorageReplyView, StorageRequest, StorageRequestView, Summarized,
};
use crate::services::openai::{
    generate_labels, generate_summary, labels_of, labels_request, labels_request_of,
    lemma_labels_are_never_none, summary_of, summary_request, summary_request_of, GenerationError,
    GenerationReply, GenerationReplyView, GenerationRequest, GenerationRequestView,
};
use crate::types::{
    Content, ContentView, NotFoundError, PipelineError, SummaryAndLabelsResponse,
    SummaryAndLabelsView,
};
use vstd::prelude::*;

verus! {

/// How far a submission has come. Each stage but the last waits for the
/// answer to the operation that was asked for on entering it.
pub enum Stage {
    /// The content row is being written.
    InsertingContent,
    /// The identifier of the new content row is being read back.
    RecoveringIdentifier,
    /// The summary is being generated.
    GeneratingSummary { content_id: i32 },
    /// The summary row is being written.
    PersistingSummary { content_id: i32, summary: String },
    /// The labels are being generated.
    GeneratingLabels { content_id: i32, summary: String },
    /// The label rows are being written, one after the other: the rows of
    /// the labels before `next` were asked for.
    PersistingLabels { content_id: i32, summary: String, labels: Vec<String>, next: usize },
    /// The submission has returned or failed.
    Finished,
}

/// A `Stage` as the contracts see it: each text by its characters.
pub enum StageView {
    InsertingContent,
    RecoveringIdentifier,
    GeneratingSummary { content_id: i32 },
    PersistingSummary { content_id: i32, summary: Seq<char> },
    GeneratingLabels { content_id: i32, summary: Seq<char> },
    PersistingLabels { content_id: i32, summary: Seq<char>, labels: Seq<Seq<char>>, next: nat },
    Finished,
}

impl View for Stage {
    type V = StageView;

    open spec fn view(&self) -> StageView {
        match self {
            Stage::InsertingContent => StageView::InsertingContent,
            Stage::RecoveringIdentifier => StageView::RecoveringIdentifier,
            Stage::GeneratingSummary { content_id } => StageView::GeneratingSummary {
                content_id: *content_id,
            },
            Stage::PersistingSummary { content_id, summary } => StageView::PersistingSummary {
                content_id: *content_id,
                summary: summary@,
            },
            Stage::GeneratingLabels { content_id, summary } => StageView::GeneratingLabels {
                content_id: *content_id,
                summary: summary@,
            },
            Stage::PersistingLabels { content_id, summary, labels, next } => {
                StageView::PersistingLabels {
                    content_id: *content_id,
                    summary: summary@,
                    labels: labels.deep_view(),
                    next: *next as nat,
                }
            },
            Stage::Finished => StageView::Finished,
        }
    }
}

/// The next thing to do for a submission.
#[derive(Debug, PartialEq, Eq)]
pub enum Action {
    /// Carry out this operation on the store.
    Store(StorageRequest),
    /// Send this request to the generation service.
    Generate(GenerationRequest),
    /// The submission is done: hand this to the caller.
    Return(SummaryAndLabelsResponse),
    /// The submission failed: hand this to the caller.
    Fail(PipelineError),
    /// The submission had ended before: there is nothing to do.
    Nothing,
}

/// An `Action` as the contracts see it: each text by its characters.
pub enum ActionView {
    Store(StorageRequestView),
    Generate(GenerationRequestView),
    Return(SummaryAndLabelsView),
    Fail(PipelineError),
    Nothing,
}

impl View for Action {
    type V = ActionView;

    open spec fn view(&self) -> ActionView {
        match self {
            Action::Store(request) => ActionView::Store(request@),
            Action::Generate(request) => ActionView::Generate(request@),
            Action::Return(response) => ActionView::Return(response@),
            Action::Fail(error) => ActionView::Fail(*error),
            Action::Nothing => ActionView::Nothing,
        }
    }
}

/// The answer to the operation that a workflow asked for.
#[derive(Debug, PartialEq, Eq)]
pub enum Event {
    /// The store has answered.
    Stored(StorageReply),
    /// The exchange with the generation service has ended.
    Generated(GenerationReply),
}

/// An `Event` as the contracts see it: each text by its characters.
pub enum EventView {
    Stored(StorageReplyView),
    Generated(GenerationReplyView),
}

impl View for Event {
    type V = EventView;

    open spec fn view(&self) -> EventView {
        match self {
            Event::Stored(reply) => EventView::Stored(reply@),
            Event::Generated(reply) => EventView::Generated(reply@),
        }
    }
}

/// The error of a workflow that waited for the store and was handed `event`:
/// the store's own error where it reports one, and a malformed statement
/// where the answer is not of the kind that was waited for.
pub open spec fn storage_failure(event: EventView) -> PipelineError {
    match event {
        EventView::Stored(StorageReplyView::Failed(error)) => PipelineError::Storage(error),
        _ => PipelineError::Storage(StorageError::Statement),
    }
}

/// A submission on its way through the pipeline.
pub struct Submission {
    api_key: String,
    title: String,
    text: String,
    stage: Stage,
}

/// A `Submission` as the contracts see it: each text by its characters.
pub struct SubmissionView {
    pub api_key: Seq<char>,
    pub title: Seq<char>,
    pub text: Seq<char>,
    pub stage: StageView,
}

impl View for Submission {
    type V = SubmissionView;

    closed spec fn view(&self) -> SubmissionView {
        SubmissionView {
            api_key: self.api_key@,
            title: self.title@,
            text: self.text@,
            stage: self.stage@,
        }
    }
}

impl SubmissionView {
    /// This submission at another stage.
    pub open spec fn at(self, stage: StageView) -> SubmissionView {
        SubmissionView { stage, ..self }
    }

    /// This submission, ended with `error`.
    pub open spec fn fail(self, error: PipelineError) -> (SubmissionView, ActionView) {
        (self.at(StageView::Finished), ActionView::Fail(error))
    }

    /// This submission, ended with summary and labels.
    pub open spec fn succeed(self, summary: Seq<char>, labels: Seq<Seq<char>>) -> (
        SubmissionView,
        ActionView,
    ) {
        (
            self.at(StageView::Finished),
            ActionView::Return(SummaryAndLabelsView { summary, labels }),
        )
    }

    /// A new submission, and its first action: writing the content row.
    pub open spec fn begin(api_key: Seq<char>, title: Seq<char>, text: Seq<char>) -> (
        SubmissionView,
        ActionView,
    ) {
        (
            SubmissionView { api_key, title, text, stage: StageView::InsertingContent },
            ActionView::Store(StorageRequestView::InsertContent { title, content: text }),
        )
    }

    /// Whether the submission has returned or failed.
    pub open spec fn finished(self) -> bool {
        self.stage is Finished
    }

    /// The stage after this one and the action to take, once `event` has
    /// answered the action of this stage. The steps follow each other in a
    /// fixed order: content row, identifier, summary, summary row, labels,
    /// label rows. Any failure ends the submission, and nothing is tried
    /// again.
    pub open spec fn step(self, event: EventView) -> (SubmissionView, ActionView) {
        match self.stage {
            StageView::InsertingContent => match event {
                EventView::Stored(StorageReplyView::RowsAffected(_)) => (
                    self.at(StageView::RecoveringIdentifier),
                    ActionView::Store(StorageRequestView::MostRecentContent),
                ),
                _ => self.fail(storage_failure(event)),
            },
            StageView::RecoveringIdentifier => match event {
                EventView::Stored(StorageReplyView::MostRecentContent(Some(recent))) => (
                    self.at(StageView::GeneratingSummary { content_id: recent.0 }),
                    ActionView::Generate(summary_request_of(self.api_key, self.title, self.text)),
                ),
                EventView::Stored(StorageReplyView::MostRecentContent(None)) => self.fail(
                    PipelineError::NotFound(NotFoundError::Content),
                ),
                _ => self.fail(storage_failure(event)),
            },
            StageView::GeneratingSummary { content_id } => match event {
                EventView::Generated(reply) => match summary_of(reply) {
                    Ok(summary) => (
                        self.at(StageView::PersistingSummary { content_id, summary }),
                        ActionView::Store(
                            StorageRequestView::InsertSummary { content_id, summary },
                        ),
                    ),
                    Err(error) => self.fail(PipelineError::Generation(error)),
                },
                _ => self.fail(PipelineError::Generation(GenerationError::Parse)),
            },
            StageView::PersistingSummary { content_id, summary } => match event {
                EventView::Stored(StorageReplyView::RowsAffected(_)) => (
                    self.at(StageView::GeneratingLabels { content_id, summary }),
                    ActionView::Generate(labels_request_of(self.api_key, self.title, self.text)),
                ),
                _ => self.fail(storage_failure(event)),
            },
            StageView::GeneratingLabels { content_id, summary } => match event {
                EventView::Generated(reply) => match labels_of(reply) {
                    Ok(labels) => if labels.len() == 0 {
                        self.succeed(summary, labels)
                    } else {
                        (
                            self.at(
                                StageView::PersistingLabels {
                                    content_id,
                                    summary,
                                    labels,
                                    next: 1,
                                },
                            ),
                            ActionView::Store(
                                StorageRequestView::InsertLabel { content_id, name: labels[0] },
                            ),
                        )
                    },
                    Err(error) => self.fail(PipelineError::Generation(error)),
                },
                _ => self.fail(PipelineError::Generation(GenerationError::Parse)),
            },
            StageView::PersistingLabels { content_id, summary, labels, next } => match event {
                EventView::Stored(StorageReplyView::RowsAffected(_)) => if next < labels.len() {
                    (
                        self.at(
                            StageView::PersistingLabels {
                                content_id,
                                summary,
                                labels,
                                next: next + 1,
                            },
                        ),
                        ActionView::Store(
                            StorageRequestView::InsertLabel {
                                content_id,
                                name: labels[next as int],
                            },
                        ),
                    )
                } else {
                    self.succeed(summary, labels)
                },
                _ => self.fail(storage_failure(event)),
            },
            StageView::Finished => (self, ActionView::Nothing),
        }
    }
}

/// The error of a workflow that waited for the store and was handed `event`.
fn failure_of(event: &Event) -> (error: PipelineError)
    ensures
        error == storage_failure(event@),
{
    match event {
        Event::Stored(StorageReply::Failed(error)) => PipelineError::Storage(*error),
        _ => PipelineError::Storage(StorageError::Statement),
    }
}

impl Submission {
    /// Starts the submission of `text` under `title`. The first action is
    /// to write the content row. `api_key` authorizes the requests to the
    /// generation service.
    pub fn begin(api_key: &str, title: &str, text: &str) -> (start: (Submission, Action))
        ensures
            (start.0@, start.1@) == SubmissionView::begin(api_key@, title@, text@),
    {
        let submission = Submission {
            api_key: String::from_str(api_key),
            title: String::from_str(title),
            text: String::from_str(text),
            stage: Stage::InsertingContent,
        };
        let action = Action::Store(
            StorageRequest::InsertContent {
                title: String::from_str(title),
                content: String::from_str(text),
            },
        );
        (submission, action)
    }

    /// Whether the submission has returned or failed.
    pub fn is_finished(&self) -> (finished: bool)
        ensures
            finished == self@.finished(),
    {
        match self.stage {
            Stage::Finished => true,
            _ => false,
        }
    }

    /// Takes the answer to the action that was asked for last, and gives the
    /// submission at its next stage together with the next action.
    pub fn advance(self, event: Event) -> (next: (Submission, Action))
        ensures
            (next.0@, next.1@) == self@.step(event@),
    {
        let Submission { api_key, title, text, stage } = self;
        match stage {
            Stage::InsertingContent => match event {
                Event::Stored(StorageReply::RowsAffected(_)) => (
                    Submission { api_key, title, text, stage: Stage::RecoveringIdentifier },
                    Action::Store(StorageRequest::MostRecentContent),
                ),
                other => {
                    let error = failure_of(&other);
                    (Submission { api_key, title, text, stage: Stage::Finished }, Action::Fail(error))
                },
            },
            Stage::RecoveringIdentifier => match event {
                Event::Stored(StorageReply::MostRecentContent(Some(recent))) => {
                    let request = summary_request(api_key.as_str(), title.as_str(), text.as_str());
                    (
                        Submission {
                            api_key,
                            title,
                            text,
                            stage: Stage::GeneratingSummary { content_id: recent.0 },
                        },
                        Action::Generate(request),
                    )
                },
                Event::Stored(StorageReply::MostRecentContent(None)) => (
                    Submission { api_key, title, text, stage: Stage::Finished },
                    Action::Fail(PipelineError::NotFound(NotFoundError::Content)),
                ),
                other => {
                    let error = failure_of(&other);
                    (Submission { api_key, title, text, stage: Stage::Finished }, Action::Fail(error))
                },
            },
            Stage::GeneratingSummary { content_id } => match event {
                Event::Generated(reply) => match generate_summary(&reply) {
                    Ok(summary) => {
                        let request = StorageRequest::InsertSummary {
                            content_id,
                            summary: summary.clone(),
                        };
                        (
                            Submission {
                                api_key,
                                title,
                                text,
                                stage: Stage::PersistingSummary { content_id, summary },
                            },
                            Action::Store(request),
                        )
                    },
                    Err(error) => (
                        Submission { api_key, title, text, stage: Stage::Finished },
                        Action::Fail(PipelineError::Generation(error)),
                    ),
                },
                _ => (
                    Submission { api_key, title, text, stage: Stage::Finished },
                    Action::Fail(PipelineError::Generation(GenerationError::Parse)),
                ),
            },
            Stage::PersistingSummary { content_id, summary } => match event {
                Event::Stored(StorageReply::RowsAffected(_)) => {
                    let request = labels_request(api_key.as_str(), title.as_str(), text.as_str());
                    (
                        Submission {
                            api_key,
                            title,
                            text,
                            stage: Stage::GeneratingLabels { content_id, summary },
                        },
                        Action::Generate(request),
                    )
                },
                other => {
                    let error = failure_of(&other);
                    (Submission { api_key, title, text, stage: Stage::Finished }, Action::Fail(error))
                },
            },
            Stage::GeneratingLabels { content_id, summary } => match event {
                Event::Generated(reply) => match generate_labels(&reply) {
                    Ok(labels) => {
                        if labels.len() == 0 {
                            (
                                Submission { api_key, title, text, stage: Stage::Finished },
                                Action::Return(SummaryAndLabelsResponse { summary, labels }),
                            )
                        } else {
                            let request = StorageRequest::InsertLabel {
                                content_id,
                                name: labels[0].clone(),
                            };
                            (
                                Submission {
                                    api_key,
                                    title,
                                    text,
                                    stage: Stage::PersistingLabels {
                                        content_id,
                                        summary,
                                        labels,
                                        next: 1,
                                    },
                                },
                                Action::Store(request),
                            )
                        }
                    },
                    Err(error) => (
                        Submission { api_key, title, text, stage: Stage::Finished },
                        Action::Fail(PipelineError::Generation(error)),
                    ),
                },
                _ => (
                    Submission { api_key, title, text, stage: Stage::Finished },
                    Action::Fail(PipelineError::Generation(GenerationError::Parse)),
                ),
            },
            Stage::PersistingLabels { content_id, summary, labels, next } => match event {
                Event::Stored(StorageReply::RowsAffected(_)) => {
                    if next < labels.len() {
                        let request = StorageRequest::InsertLabel {
                            content_id,
                            name: labels[next].clone(),
                        };
                        (
                            Submission {
                                api_key,
                                title,
                                text,
                                stage: Stage::PersistingLabels {
                                    content_id,
                                    summary,
                                    labels,
                                    next: next + 1,
                                },
                            },
                            Action::Store(request),
                        )
                    } else {
                        (
                            Submission { api_key, title, text, stage: Stage::Finished },
                            Action::Return(SummaryAndLabelsResponse { summary, labels }),
                        )
                    }
                },
                other => {
                    let error = failure_of(&other);
                    (Submission { api_key, title, text, stage: Stage::Finished }, Action::Fail(error))
                },
            },
            Stage::Finished => (
                Submission { api_key, title, text, stage: Stage::Finished },
                Action::Nothing,
            ),
        }
    }
}

/// A submission reports success only on the confirmation of a write: the
/// step that returns summary and labels is the one that takes the store's
/// confirmation for the row of the last label.
pub proof fn lemma_success_follows_persistence(submission: SubmissionView, event: EventView)
    requires
        submission.step(event).1 is Return,
    ensures
        event matches EventView::Stored(StorageReplyView::RowsAffected(_)),
        submission.stage matches StageView::PersistingLabels { summary, labels, next, .. }
            && next >= labels.len() && submission.step(event).1 == ActionView::Return(
            SummaryAndLabelsView { summary, labels },
        ),
        submission.step(event).0.finished(),
{
    match submission.stage {
        StageView::GeneratingLabels { .. } => {
            if let EventView::Generated(reply) = event {
                lemma_labels_are_never_none(reply);
            }
        },
        _ => {},
    }
}

/// A submission that has failed or returned stays as it is, and every step
/// that fails or returns ends the submission.
pub proof fn lemma_ends_are_final(submission: SubmissionView, event: EventView)
    ensures
        submission.finished() ==> submission.step(event) == (submission, ActionView::Nothing),
        submission.step(event).1 is Return || submission.step(event).1 is Fail
            ==> submission.step(event).0.finished(),
        submission.step(event).1 is Nothing <==> submission.finished(),
        submission.step(event).0.title == submission.title,
        submission.step(event).0.text == submission.text,
        submission.step(event).0.api_key == submission.api_key,
{
    match submission.stage {
        StageView::GeneratingLabels { .. } => {
            if let EventView::Generated(reply) = event {
                lemma_labels_are_never_none(reply);
            }
        },
        _ => {},
    }
}

/// How far a listing has come.
pub enum ListingStage {
    /// The contents that have a summary are being fetched.
    FetchingContents,
    /// The labels are being fetched, content by content: `records` holds
    /// the enriched records of the first rows, and the labels of the row
    /// after them were asked for.
    FetchingLabels { rows: Vec<(i32, String, String, String)>, records: Vec<Content> },
    /// The listing has returned or failed.
    Finished,
}

/// A `ListingStage` as the contracts see it: each text by its characters.
pub enum ListingStageView {
    FetchingContents,
    FetchingLabels { rows: Seq<Summarized>, records: Seq<ContentView> },
    Finished,
}

impl View for ListingStage {
    type V = ListingStageView;

    open spec fn view(&self) -> ListingStageView {
        match self {
            ListingStage::FetchingContents => ListingStageView::FetchingContents,
            ListingStage::FetchingLabels { rows, records } => ListingStageView::FetchingLabels {
                rows: rows.deep_view(),
                records: records.deep_view(),
            },
            ListingStage::Finished => ListingStageView::Finished,
        }
    }
}

/// The next thing to do for a listing.
#[derive(Debug, PartialEq, Eq)]
pub enum ListingAction {
    /// Carry out this operation on the store.
    Store(StorageRequest),
    /// The listing is done: hand these records to the caller.
    Return(Vec<Content>),
    /// The listing failed: hand this to the caller.
    Fail(PipelineError),
    /// The listing had ended before: there is nothing to do.
    Nothing,
}

/// A `ListingAction` as the contracts see it: each text by its characters.
pub enum ListingActionView {
    Store(StorageRequestView),
    Return(Seq<ContentView>),
    Fail(PipelineError),
    Nothing,
}

impl View for ListingAction {
    type V = ListingActionView;

    open spec fn view(&self) -> ListingActionView {
        match self {
            ListingAction::Store(request) => ListingActionView::Store(request@),
            ListingAction::Return(records) => ListingActionView::Return(records.deep_view()),
            ListingAction::Fail(error) => ListingActionView::Fail(*error),
            ListingAction::Nothing => ListingActionView::Nothing,
        }
    }
}

/// The enriched record of one row of the join, with these labels.
pub open spec fn enriched(row: Summarized, labels: Seq<Seq<char>>) -> ContentView {
    ContentView { id: row.0, title: row.1, content: row.2, summary: row.3, labels }
}

/// A listing on its way.
pub struct Listing {
    stage: ListingStage,
}

impl View for Listing {
    type V = ListingStageView;

    closed spec fn view(&self) -> ListingStageView {
        self.stage@
    }
}

impl ListingStageView {
    /// A new listing, and its first action: fetching the contents that have
    /// a summary.
    pub open spec fn begin() -> (ListingStageView, ListingActionView) {
        (
            ListingStageView::FetchingContents,
            ListingActionView::Store(StorageRequestView::ContentsWithSummaries),
        )
    }

    /// Whether the listing has returned or failed.
    pub open spec fn finished(self) -> bool {
        self is Finished
    }

    /// The stage after this one and the action to take, once `event` has
    /// answered the action of this stage. The labels are asked for row by
    /// row, in the order of the rows, and there is one record per row.
    pub open spec fn step(self, event: EventView) -> (ListingStageView, ListingActionView) {
        match self {
            ListingStageView::FetchingContents => match event {
                EventView::Stored(StorageReplyView::ContentsWithSummaries(rows)) => if rows.len()
                    == 0 {
                    (ListingStageView::Finished, ListingActionView::Return(Seq::empty()))
                } else {
                    (
                        ListingStageView::FetchingLabels { rows, records: Seq::empty() },
                        ListingActionView::Store(StorageRequestView::Labels { content_id: rows[0].0 }),
                    )
                },
                _ => (ListingStageView::Finished, ListingActionView::Fail(storage_failure(event))),
            },
            ListingStageView::FetchingLabels { rows, records } => match event {
                EventView::Stored(StorageReplyView::Labels(labels)) => if records.len()
                    >= rows.len() {
                    (ListingStageView::Finished, ListingActionView::Return(records))
                } else {
                    let more = records.push(enriched(rows[records.len() as int], labels));
                    if more.len() < rows.len() {
                        (
                            ListingStageView::FetchingLabels { rows, records: more },
                            ListingActionView::Store(
                                StorageRequestView::Labels {
                                    content_id: rows[more.len() as int].0,
                                },
                            ),
                        )
                    } else {
                        (ListingStageView::Finished, ListingActionView::Return(more))
                    }
                },
                _ => (ListingStageView::Finished, ListingActionView::Fail(storage_failure(event))),
            },
            ListingStageView::Finished => (self, ListingActionView::Nothing),
        }
    }
}

impl Listing {
    /// Starts a listing. The first action is to fetch the contents that
    /// have a summary.
    pub fn begin() -> (start: (Listing, ListingAction))
        ensures
            (start.0@, start.1@) == ListingStageView::begin(),
    {
        (
            Listing { stage: ListingStage::FetchingContents },
            ListingAction::Store(StorageRequest::ContentsWithSummaries),
        )
    }

    /// Whether the listing has returned or failed.
    pub fn is_finished(&self) -> (finished: bool)
        ensures
            finished == self@.finished(),
    {
        match self.stage {
            ListingStage::Finished => true,
            _ => false,
        }
    }

    /// Takes the answer to the action that was asked for last, and gives the
    /// listing at its next stage together with the next action.
    pub fn advance(self, event: Event) -> (next: (Listing, ListingAction))
        ensures
            (next.0@, next.1@) == self@.step(event@),
    {
        match self.stage {
            ListingStage::FetchingContents => match event {
                Event::Stored(StorageReply::ContentsWithSummaries(rows)) => {
                    if rows.len() == 0 {
                        let records: Vec<Content> = Vec::new();
                        assert(records.deep_view() =~= Seq::empty());
                        (Listing { stage: ListingStage::Finished }, ListingAction::Return(records))
                    } else {
                        let request = StorageRequest::Labels { content_id: rows[0].0 };
                        let records: Vec<Content> = Vec::new();
                        assert(records.deep_view() =~= Seq::empty());
                        (
                            Listing { stage: ListingStage::FetchingLabels { rows, records } },
                            ListingAction::Store(request),
                        )
                    }
                },
                other => {
                    let error = failure_of(&other);
                    (Listing { stage: ListingStage::Finished }, ListingAction::Fail(error))
                },
            },
            ListingStage::FetchingLabels { rows, records } => match event {
                Event::Stored(StorageReply::Labels(labels)) => {
                    let done: usize = records.len();
                    if done >= rows.len() {
                        (Listing { stage: ListingStage::Finished }, ListingAction::Return(records))
                    } else {
                        let ghost before = records.deep_view();
                        let mut records = records;
                        let row = &rows[done];
                        let record = Content {
                            id: row.0,
                            title: row.1.clone(),
                            content: row.2.clone(),
                            summary: row.3.clone(),
                            labels,
                        };
                        records.push(record);
                        proof {
                            assert(records.deep_view() =~= before.push(
                                enriched(rows.deep_view()[done as int], labels.deep_view()),
                            ));
                        }
                        if records.len() < rows.len() {
                            let request = StorageRequest::Labels {
                                content_id: rows[records.len()].0,
                            };
                            (
                                Listing { stage: ListingStage::FetchingLabels { rows, records } },
                                ListingAction::Store(request),
                            )
                        } else {
                            (
                                Listing { stage: ListingStage::Finished },
                                ListingAction::Return(records),
                            )
                        }
                    }
                },
                other => {
                    let error = failure_of(&other);
                    (Listing { stage: ListingStage::Finished }, ListingAction::Fail(error))
                },
            },
            ListingStage::Finished => (
                Listing { stage: ListingStage::Finished },
                ListingAction::Nothing,
            ),
        }
    }
}

} // verus!
