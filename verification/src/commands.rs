//! The two commands, run to their end on the storage engine: submitting a
//! text, and listing the enriched records.

use crate::config::Config;
use crate::pipeline::{
    enriched, Action, ActionView, Event, EventView, Listing, ListingAction, ListingActionView,
    ListingStageView, StageView, Submission, SubmissionView,
};
use crate::services::db::{
    lemma_filter_rejects_all, lemma_join_after_content, lemma_join_after_labels,
    lemma_join_after_summary, lemma_labels_after_insert, lemma_most_recent_after_insert,
    lemma_most_recent_is_largest, lemma_same_contents, lemma_with_content_wf,
    lemma_with_labels_wf, lemma_with_summary_wf, ContentRowView, LabelRowView, StorageError,
    StorageRequestView, Summarized, Tables, DB,
};
use crate::services::openai::{
    labels_of, summary_of, GenerationError, GenerationReply, GenerationReplyView,
};
use crate::types::{
    Content, ContentView, Database, NotFoundError, PipelineError, SummaryAndLabelsResponse,
    SummaryAndLabelsView,
};
use vstd::pervasive::unreached;
use vstd::prelude::*;

verus! {

/// The enriched records of the tables: one per entry of the join of
/// contents and summaries, in its order, each with all labels of its
/// content.
pub open spec fn listing(tables: Tables) -> Seq<ContentView> {
    tables.contents_with_summaries().map_values(
        |row: Summarized| enriched(row, tables.labels_for(row.0)),
    )
}

/// What a submission does to the tables, and what it returns.
///
/// The content row is written first and gets the next identifier. Then the
/// summary is read out of the first reply of the generation service and
/// written, then the labels are read out of the second reply and written.
/// The first step that fails ends the submission: what was written before
/// stays, and nothing that follows is done.
pub open spec fn submit(
    tables: Tables,
    title: Seq<char>,
    text: Seq<char>,
    summary_reply: GenerationReplyView,
    labels_reply: GenerationReplyView,
) -> (Tables, Result<SummaryAndLabelsView, PipelineError>) {
    if !tables.has_room() {
        (tables, Err(PipelineError::Storage(StorageError::Constraint)))
    } else {
        let id = tables.next_id() as i32;
        let stored = tables.with_content(title, text);
        match summary_of(summary_reply) {
            Err(error) => (stored, Err(PipelineError::Generation(error))),
            Ok(summary) => {
                let summarized = stored.with_summary(id, summary);
                match labels_of(labels_reply) {
                    Err(error) => (summarized, Err(PipelineError::Generation(error))),
                    Ok(labels) => (
                        summarized.with_labels(id, labels),
                        Ok(SummaryAndLabelsView { summary, labels }),
                    ),
                }
            },
        }
    }
}

/// A response by the characters it holds.
pub open spec fn response_result(
    result: Result<SummaryAndLabelsResponse, PipelineError>,
) -> Result<SummaryAndLabelsView, PipelineError> {
    match result {
        Ok(response) => Ok(response@),
        Err(error) => Err(error),
    }
}

/// What a submission that ended hands to its caller.
spec fn outcome(action: ActionView) -> Result<SummaryAndLabelsView, PipelineError> {
    match action {
        ActionView::Return(response) => Ok(response),
        ActionView::Fail(error) => Err(error),
        _ => Err(PipelineError::NotFound(NotFoundError::Content)),
    }
}

/// How many stages lie ahead of a submission at most.
spec fn stages_ahead(submission: SubmissionView) -> nat {
    match submission.stage {
        StageView::InsertingContent => 6,
        StageView::RecoveringIdentifier => 5,
        StageView::GeneratingSummary { .. } => 4,
        StageView::PersistingSummary { .. } => 3,
        StageView::GeneratingLabels { .. } => 2,
        StageView::PersistingLabels { .. } => 1,
        StageView::Finished => 0,
    }
}

/// How many labels of a submission are still to be written.
spec fn labels_ahead(submission: SubmissionView) -> nat {
    match submission.stage {
        StageView::PersistingLabels { labels, next, .. } => if next <= labels.len() {
            (labels.len() - next) as nat
        } else {
            0
        },
        _ => 0,
    }
}

/// `next` is nearer to the end of the submission than `submission`.
spec fn nearer(next: SubmissionView, submission: SubmissionView) -> bool {
    ||| stages_ahead(next) < stages_ahead(submission)
    ||| (stages_ahead(next) == stages_ahead(submission) && labels_ahead(next) < labels_ahead(
        submission,
    ))
}

/// What a run of a submission starts from: the tables, the title and the
/// text, and the two answers of the generation service.
struct Course {
    start: Tables,
    title: Seq<char>,
    text: Seq<char>,
    summary_reply: GenerationReplyView,
    labels_reply: GenerationReplyView,
}

impl Course {
    /// The identifier of the content row of this run.
    spec fn id(self) -> i32 {
        self.start.next_id() as i32
    }

    /// The tables once the content row is written.
    spec fn stored(self) -> Tables {
        self.start.with_content(self.title, self.text)
    }

    /// The tables once the summary row is written as well.
    spec fn summarized(self, summary: Seq<char>) -> Tables {
        self.stored().with_summary(self.id(), summary)
    }

    /// What the generation service answers to its next request, after
    /// `asked` requests.
    spec fn reply(self, asked: int) -> GenerationReplyView {
        if asked == 0 {
            self.summary_reply
        } else {
            self.labels_reply
        }
    }

    /// Where the run ends.
    spec fn end(self) -> (Tables, Result<SummaryAndLabelsView, PipelineError>) {
        submit(self.start, self.title, self.text, self.summary_reply, self.labels_reply)
    }

    /// The run has come to this stage, this action and these tables, after
    /// `asked` requests to the generation service.
    spec fn on_track(
        self,
        submission: SubmissionView,
        action: ActionView,
        now: Tables,
        asked: int,
    ) -> bool {
        &&& submission.title == self.title
        &&& submission.text == self.text
        &&& now.wf()
        &&& match submission.stage {
            StageView::InsertingContent => {
                &&& asked == 0
                &&& now == self.start
                &&& action == ActionView::Store(
                    StorageRequestView::InsertContent { title: self.title, content: self.text },
                )
            },
            StageView::RecoveringIdentifier => {
                &&& asked == 0
                &&& self.start.has_room()
                &&& now == self.stored()
                &&& action == ActionView::Store(StorageRequestView::MostRecentContent)
            },
            StageView::GeneratingSummary { content_id } => {
                &&& asked == 0
                &&& self.start.has_room()
                &&& now == self.stored()
                &&& content_id == self.id()
                &&& action is Generate
            },
            StageView::PersistingSummary { content_id, summary } => {
                &&& asked == 1
                &&& self.start.has_room()
                &&& now == self.stored()
                &&& content_id == self.id()
                &&& summary_of(self.summary_reply) == Ok::<Seq<char>, GenerationError>(summary)
                &&& action == ActionView::Store(
                    StorageRequestView::InsertSummary { content_id, summary },
                )
            },
            StageView::GeneratingLabels { content_id, summary } => {
                &&& asked == 1
                &&& self.start.has_room()
                &&& now == self.summarized(summary)
                &&& content_id == self.id()
                &&& summary_of(self.summary_reply) == Ok::<Seq<char>, GenerationError>(summary)
                &&& action is Generate
            },
            StageView::PersistingLabels { content_id, summary, labels, next } => {
                &&& asked == 2
                &&& self.start.has_room()
                &&& content_id == self.id()
                &&& summary_of(self.summary_reply) == Ok::<Seq<char>, GenerationError>(summary)
                &&& labels_of(self.labels_reply) == Ok::<Seq<Seq<char>>, GenerationError>(labels)
                &&& 1 <= next <= labels.len()
                &&& now == self.summarized(summary).with_labels(
                    self.id(),
                    labels.take(next - 1),
                )
                &&& action == ActionView::Store(
                    StorageRequestView::InsertLabel { content_id, name: labels[next - 1] },
                )
            },
            StageView::Finished => {
                &&& action is Return || action is Fail
                &&& (now, outcome(action)) == self.end()
            },
        }
    }

    /// What holds once the store has answered `request` for a submission
    /// that was on track.
    spec fn on_track_when_stored(
        self,
        submission: SubmissionView,
        request: StorageRequestView,
        now: Tables,
        asked: int,
    ) -> bool {
        let answer = now.answer(request);
        let next = submission.step(EventView::Stored(answer.1));
        self.on_track(next.0, next.1, answer.0, asked) && nearer(next.0, submission)
    }

    /// What holds once the generation service has answered a submission
    /// that was on track.
    spec fn on_track_when_generated(
        self,
        submission: SubmissionView,
        now: Tables,
        asked: int,
    ) -> bool {
        let next = submission.step(EventView::Generated(self.reply(asked)));
        self.on_track(next.0, next.1, now, asked + 1) && nearer(next.0, submission)
    }

    /// One step of a submission that is on track keeps it on track, and
    /// brings it nearer to its end.
    proof fn lemma_step_on_track(
        self,
        submission: SubmissionView,
        action: ActionView,
        now: Tables,
        asked: int,
    )
        requires
            self.start.wf(),
            !submission.finished(),
            self.on_track(submission, action, now, asked),
        ensures
            action is Store || action is Generate,
            0 <= asked <= 1 || action is Store,
            action matches ActionView::Store(request) ==> self.on_track_when_stored(
                submission,
                request,
                now,
                asked,
            ),
            action is Generate ==> self.on_track_when_generated(submission, now, asked),
    {
        let id = self.id();
        let stored = self.stored();
        match submission.stage {
            StageView::InsertingContent => {
                if self.start.has_room() {
                    lemma_with_content_wf(self.start, self.title, self.text);
                }
            },
            StageView::RecoveringIdentifier => {
                lemma_most_recent_after_insert(self.start, self.title, self.text);
            },
            StageView::GeneratingSummary { .. } => {},
            StageView::PersistingSummary { summary, .. } => {
                lemma_with_content_wf(self.start, self.title, self.text);
                lemma_with_summary_wf(stored, id, summary);
            },
            StageView::GeneratingLabels { summary, .. } => {
                let summarized = self.summarized(summary);
            },
            StageView::PersistingLabels { summary, labels, next, .. } => {
                let summarized = self.summarized(summary);
                let written = labels.take(next as int);
                lemma_with_content_wf(self.start, self.title, self.text);
                lemma_same_contents(stored, summarized);
                lemma_same_contents(summarized, now);
                assert(now.with_labels(id, seq![labels[next - 1]]).labels
                    =~= summarized.with_labels(id, written).labels);
                lemma_with_labels_wf(now, id, seq![labels[next - 1]]);
                if next >= labels.len() {
                    assert(written =~= labels);
                }
            },
            StageView::Finished => {},
        }
    }
}

/// Takes the engine out of the database, where there is one.
fn take_engine(database: &mut Database) -> (engine: Option<DB>)
    ensures
        final(database).db is None,
        final(database).database_url == old(database).database_url,
        engine == old(database).db,
{
    database.db.take()
}

/// Submits `text` under `title`: runs a submission to its end on the
/// engine of `database`. `summary_reply` is what the generation service
/// answers when it is asked for the summary, `labels_reply` what it answers
/// when it is asked for the labels.
///
/// Without an engine the command fails at once. Otherwise the tables and
/// the result are those of `submit`.
pub fn get_summary_and_labels(
    title: &str,
    text: &str,
    database: &mut Database,
    config: &Config,
    summary_reply: GenerationReply,
    labels_reply: GenerationReply,
) -> (result: Result<SummaryAndLabelsResponse, PipelineError>)
    requires
        old(database)@.wf(),
    ensures
        final(database)@.wf(),
        final(database)@.database_url == old(database)@.database_url,
        match old(database)@.db {
            None => {
                &&& final(database)@.db is None
                &&& result == Err::<SummaryAndLabelsResponse, PipelineError>(
                    PipelineError::NotFound(NotFoundError::Database),
                )
            },
            Some(tables) => {
                &&& final(database)@.db is Some
                &&& (final(database)@.db->Some_0, response_result(result)) == submit(
                    tables,
                    title@,
                    text@,
                    summary_reply@,
                    labels_reply@,
                )
            },
        },
{
    let mut db = match take_engine(database) {
        None => {
            return Err(PipelineError::NotFound(NotFoundError::Database));
        },
        Some(db) => db,
    };
    let ghost course = Course {
        start: db@,
        title: title@,
        text: text@,
        summary_reply: summary_reply@,
        labels_reply: labels_reply@,
    };
    let began = Submission::begin(config.openai_api_key.as_str(), title, text);
    let mut submission = began.0;
    let mut action = began.1;
    let mut summary_reply = Some(summary_reply);
    let mut labels_reply = Some(labels_reply);
    let mut asked: u8 = 0;
    while !submission.is_finished()
        invariant
            course.start.wf(),
            asked <= 2,
            asked == 0 ==> summary_reply is Some && summary_reply->Some_0@ == course.summary_reply,
            asked <= 1 ==> labels_reply is Some && labels_reply->Some_0@ == course.labels_reply,
            course.on_track(submission@, action@, db@, asked as int),
        decreases stages_ahead(submission@), labels_ahead(submission@),
    {
        proof {
            course.lemma_step_on_track(submission@, action@, db@, asked as int);
        }
        match action {
            Action::Store(request) => {
                let reply = db.perform(&request);
                let next = submission.advance(Event::Stored(reply));
                submission = next.0;
                action = next.1;
            },
            Action::Generate(_) => {
                let reply = if asked == 0 {
                    summary_reply.take()
                } else {
                    labels_reply.take()
                };
                let next = submission.advance(Event::Generated(reply.unwrap()));
                submission = next.0;
                action = next.1;
                asked = asked + 1;
            },
            _ => unreached(),
        }
    }
    database.db = Some(db);
    match action {
        Action::Return(response) => Ok(response),
        Action::Fail(error) => Err(error),
        _ => unreached(),
    }
}

/// How many stages lie ahead of a listing at most.
spec fn listing_stages_ahead(listing: ListingStageView) -> nat {
    match listing {
        ListingStageView::FetchingContents => 2,
        ListingStageView::FetchingLabels { .. } => 1,
        ListingStageView::Finished => 0,
    }
}

/// How many records of a listing are still to be made.
spec fn records_ahead(listing: ListingStageView) -> nat {
    match listing {
        ListingStageView::FetchingLabels { rows, records } => if records.len() <= rows.len() {
            (rows.len() - records.len()) as nat
        } else {
            0
        },
        _ => 0,
    }
}

/// The listing of `tables`, answered by the store, has come to this stage
/// and this action.
spec fn listing_on_track(stage: ListingStageView, action: ListingActionView, tables: Tables) -> bool {
    match stage {
        ListingStageView::FetchingContents => action == ListingActionView::Store(
            StorageRequestView::ContentsWithSummaries,
        ),
        ListingStageView::FetchingLabels { rows, records } => {
            &&& rows == tables.contents_with_summaries()
            &&& records.len() < rows.len()
            &&& records == listing(tables).take(records.len() as int)
            &&& action == ListingActionView::Store(
                StorageRequestView::Labels { content_id: rows[records.len() as int].0 },
            )
        },
        ListingStageView::Finished => action == ListingActionView::Return(listing(tables)),
    }
}

/// One step of a listing that is on track keeps it on track, and brings it
/// nearer to its end.
proof fn lemma_step_listing_on_track(
    stage: ListingStageView,
    action: ListingActionView,
    tables: Tables,
)
    requires
        !stage.finished(),
        listing_on_track(stage, action, tables),
    ensures
        action is Store,
        ({
            let answer = tables.answer(action->Store_0);
            let next = stage.step(EventView::Stored(answer.1));
            &&& answer.0 == tables
            &&& listing_on_track(next.0, next.1, tables)
            &&& listing_stages_ahead(next.0) < listing_stages_ahead(stage) || (listing_stages_ahead(
                next.0,
            ) == listing_stages_ahead(stage) && records_ahead(next.0) < records_ahead(stage))
        }),
{
    let all = listing(tables);
    match stage {
        ListingStageView::FetchingContents => {
            if all.len() == 0 {
                assert(all =~= Seq::<ContentView>::empty());
            } else {
                assert(all.take(0) =~= Seq::<ContentView>::empty());
            }
        },
        ListingStageView::FetchingLabels { rows, records } => {
            let k = records.len() as int;
            let more = records.push(enriched(rows[k], tables.labels_for(rows[k].0)));
            assert(more =~= all.take(k + 1));
            if more.len() >= rows.len() {
                assert(all.take(k + 1) =~= all);
            }
        },
        ListingStageView::Finished => {},
    }
}

/// Lists the enriched records: runs a listing to its end on the engine of
/// `database`. There is one record for every content that has a summary,
/// in the order of the contents, with all labels of that content. Nothing
/// is written.
pub fn get_contents(database: &mut Database) -> (result: Result<Vec<Content>, PipelineError>)
    requires
        old(database)@.wf(),
    ensures
        final(database)@ == old(database)@,
        match old(database)@.db {
            None => result == Err::<Vec<Content>, PipelineError>(
                PipelineError::NotFound(NotFoundError::Database),
            ),
            Some(tables) => result is Ok && result->Ok_0.deep_view() == listing(tables),
        },
{
    let mut db = match take_engine(database) {
        None => {
            return Err(PipelineError::NotFound(NotFoundError::Database));
        },
        Some(db) => db,
    };
    let ghost tables = db@;
    let began = Listing::begin();
    let mut listing = began.0;
    let mut action = began.1;
    while !listing.is_finished()
        invariant
            db@ == tables,
            tables.wf(),
            listing_on_track(listing@, action@, tables),
        decreases listing_stages_ahead(listing@), records_ahead(listing@),
    {
        proof {
            lemma_step_listing_on_track(listing@, action@, tables);
        }
        match action {
            ListingAction::Store(request) => {
                let reply = db.perform(&request);
                let next = listing.advance(Event::Stored(reply));
                listing = next.0;
                action = next.1;
            },
            _ => unreached(),
        }
    }
    database.db = Some(db);
    match action {
        ListingAction::Return(records) => Ok(records),
        ListingAction::Fail(error) => Err(error),
        _ => unreached(),
    }
}

/// The join of `rows` with the summaries of `tables`.
spec fn join_over(tables: Tables, rows: Seq<ContentRowView>) -> Seq<Summarized> {
    rows.flat_map(|row: ContentRowView| tables.summaries_of(row))
}

/// Every entry of the join over `rows` carries the identifier of one of
/// `rows`.
proof fn lemma_join_over_entries(tables: Tables, rows: Seq<ContentRowView>)
    ensures
        forall|i: int|
            0 <= i < join_over(tables, rows).len() ==> exists|k: int|
                0 <= k < rows.len() && (#[trigger] rows[k]).id == (#[trigger] join_over(
                    tables,
                    rows,
                )[i]).0,
    decreases rows.len(),
{
    let join = |row: ContentRowView| tables.summaries_of(row);
    if rows.len() > 0 {
        let front = rows.drop_last();
        let last = rows.last();
        lemma_join_over_entries(tables, front);
        front.lemma_flat_map_push(join, last);
        assert(front.push(last) =~= rows);
        let flat = join_over(tables, rows);
        let before = join_over(tables, front);
        assert forall|i: int| 0 <= i < flat.len() implies exists|k: int|
            0 <= k < rows.len() && (#[trigger] rows[k]).id == (#[trigger] flat[i]).0 by {
            if i < before.len() {
                let k = choose|k: int|
                    0 <= k < front.len() && (#[trigger] front[k]).id == before[i].0;
                assert(rows[k] == front[k]);
            }
        }
    }
}

/// Every entry of the join carries the identifier of a content row.
pub proof fn lemma_join_entries_have_contents(tables: Tables)
    ensures
        forall|i: int|
            0 <= i < tables.contents_with_summaries().len() ==> tables.has_content(
                (#[trigger] tables.contents_with_summaries()[i]).0,
            ),
{
    lemma_join_over_entries(tables, tables.contents);
    assert forall|i: int| 0 <= i < tables.contents_with_summaries().len() implies tables.has_content(
        (#[trigger] tables.contents_with_summaries()[i]).0,
    ) by {
        let k = choose|k: int|
            0 <= k < tables.contents.len() && (#[trigger] tables.contents[k]).id == join_over(
                tables,
                tables.contents,
            )[i].0;
        assert(tables.contents[k].id == tables.contents_with_summaries()[i].0);
    }
}

/// The listing shows a content only once it has a summary: writing a
/// content row leaves the listing as it was.
pub proof fn lemma_listing_after_content(tables: Tables, title: Seq<char>, content: Seq<char>)
    requires
        tables.wf(),
        tables.has_room(),
    ensures
        listing(tables.with_content(title, content)) == listing(tables),
{
    lemma_join_after_content(tables, title, content);
}

/// The first summary of the newest content adds one record at the end of
/// the listing: that content with that summary and the labels that it has.
pub proof fn lemma_listing_after_summary(tables: Tables, summary: Seq<char>)
    requires
        tables.wf(),
        tables.contents.len() > 0,
        forall|i: int|
            0 <= i < tables.summaries.len() ==> (#[trigger] tables.summaries[i]).content_id
                != tables.contents.last().id,
    ensures
        listing(tables.with_summary(tables.contents.last().id, summary)) == listing(tables).push(
            ContentView {
                id: tables.contents.last().id,
                title: tables.contents.last().title,
                content: tables.contents.last().content,
                summary,
                labels: tables.labels_for(tables.contents.last().id),
            },
        ),
{
    lemma_join_after_summary(tables, summary);
}

/// Labels written for the content of the last record of the listing, where
/// no other record is of that content, show in that record behind the
/// labels that it had, and leave every other record as it was.
pub proof fn lemma_listing_after_labels(tables: Tables, content_id: i32, names: Seq<Seq<char>>)
    requires
        listing(tables).len() > 0,
        listing(tables).last().id == content_id,
        forall|i: int|
            0 <= i < listing(tables).len() - 1 ==> (#[trigger] listing(tables)[i]).id
                != content_id,
    ensures
        listing(tables.with_labels(content_id, names)) == listing(tables).drop_last().push(
            ContentView {
                labels: listing(tables).last().labels + names,
                ..listing(tables).last()
            },
        ),
{
    let after = tables.with_labels(content_id, names);
    let before = listing(tables);
    lemma_join_after_labels(tables, content_id, names);
    let expected = before.drop_last().push(
        ContentView { labels: before.last().labels + names, ..before.last() },
    );
    assert forall|i: int| 0 <= i < expected.len() implies listing(after)[i] == expected[i] by {
        let row = tables.contents_with_summaries()[i];
        lemma_labels_after_insert(tables, content_id, names, row.0);
    }
}

/// Submitting and then listing, where both generation calls succeed. The
/// submission returns the summary and the labels, and the listing is the
/// listing from before with exactly one record more, at its end: the new
/// content under its new identifier, with the title and the text that
/// were submitted, the summary and the labels. No other record has that
/// identifier; and where no record had that title and text before, the new
/// record is the only one that has them.
pub proof fn lemma_submit_then_list(
    tables: Tables,
    title: Seq<char>,
    text: Seq<char>,
    summary_reply: GenerationReplyView,
    labels_reply: GenerationReplyView,
)
    requires
        tables.wf(),
        tables.has_room(),
        summary_of(summary_reply) is Ok,
        labels_of(labels_reply) is Ok,
    ensures
        ({
            let after = submit(tables, title, text, summary_reply, labels_reply);
            let summary = summary_of(summary_reply)->Ok_0;
            let labels = labels_of(labels_reply)->Ok_0;
            let record = ContentView {
                id: tables.next_id() as i32,
                title,
                content: text,
                summary,
                labels,
            };
            &&& after.0.wf()
            &&& after.1 == Ok::<SummaryAndLabelsView, PipelineError>(
                SummaryAndLabelsView { summary, labels },
            )
            &&& listing(after.0) == listing(tables).push(record)
            &&& forall|i: int|
                0 <= i < listing(tables).len() ==> (#[trigger] listing(after.0)[i]).id != record.id
            &&& (forall|i: int|
                0 <= i < listing(tables).len() ==> !((#[trigger] listing(tables)[i]).title == title
                    && listing(tables)[i].content == text)) ==> forall|i: int|
                0 <= i < listing(after.0).len() && (#[trigger] listing(after.0)[i]).title == title
                    && listing(after.0)[i].content == text ==> i == listing(tables).len()
        }),
{
    let id = tables.next_id() as i32;
    let summary = summary_of(summary_reply)->Ok_0;
    let labels = labels_of(labels_reply)->Ok_0;
    lemma_submit_with_summary(tables, title, text, summary);
    let summarized = tables.with_content(title, text).with_summary(id, summary);
    let after = summarized.with_labels(id, labels);
    lemma_same_contents(tables.with_content(title, text), summarized);
    lemma_with_labels_wf(summarized, id, labels);
    lemma_listing_after_labels(summarized, id, labels);
}

/// Writing a content row and its first summary adds one record to the
/// listing, at its end and without labels. No record from before has the
/// identifier of the new content.
proof fn lemma_submit_with_summary(
    tables: Tables,
    title: Seq<char>,
    text: Seq<char>,
    summary: Seq<char>,
)
    requires
        tables.wf(),
        tables.has_room(),
    ensures
        ({
            let id = tables.next_id() as i32;
            let stored = tables.with_content(title, text);
            let summarized = stored.with_summary(id, summary);
            &&& stored.wf()
            &&& summarized.wf()
            &&& stored.has_content(id)
            &&& listing(stored) == listing(tables)
            &&& listing(summarized) == listing(tables).push(
                ContentView { id, title, content: text, summary, labels: Seq::empty() },
            )
            &&& forall|i: int|
                0 <= i < listing(tables).len() ==> (#[trigger] listing(tables)[i]).id != id
            &&& forall|i: int|
                0 <= i < stored.summaries.len() ==> (#[trigger] stored.summaries[i]).content_id
                    != id
            &&& forall|i: int|
                0 <= i < stored.labels.len() ==> (#[trigger] stored.labels[i]).content_id != id
        }),
{
    let id = tables.next_id() as i32;
    let stored = tables.with_content(title, text);
    let summarized = stored.with_summary(id, summary);
    lemma_with_content_wf(tables, title, text);
    lemma_with_summary_wf(stored, id, summary);
    lemma_listing_after_content(tables, title, text);
    lemma_listing_after_summary(stored, summary);
    let own = |l: LabelRowView| l.content_id == id;
    lemma_filter_rejects_all(stored.labels, own);
    assert(stored.labels_for(id) =~= Seq::<Seq<char>>::empty());
    lemma_join_entries_have_contents(tables);
}

/// Where the summary generation call fails, the content row stays, no
/// summary row and no label row is written for it, and the listing is the
/// listing from before: it does not show the new content.
pub proof fn lemma_summary_failure_hides_content(
    tables: Tables,
    title: Seq<char>,
    text: Seq<char>,
    summary_reply: GenerationReplyView,
    labels_reply: GenerationReplyView,
)
    requires
        tables.wf(),
        tables.has_room(),
        summary_of(summary_reply) is Err,
    ensures
        ({
            let after = submit(tables, title, text, summary_reply, labels_reply);
            let id = tables.next_id() as i32;
            &&& after.0.wf()
            &&& after.0 == tables.with_content(title, text)
            &&& after.1 == Err::<SummaryAndLabelsView, PipelineError>(
                PipelineError::Generation(summary_of(summary_reply)->Err_0),
            )
            &&& after.0.has_content(id)
            &&& forall|i: int|
                0 <= i < after.0.summaries.len() ==> (#[trigger] after.0.summaries[i]).content_id
                    != id
            &&& forall|i: int|
                0 <= i < after.0.labels.len() ==> (#[trigger] after.0.labels[i]).content_id != id
            &&& listing(after.0) == listing(tables)
            &&& forall|i: int|
                0 <= i < listing(after.0).len() ==> (#[trigger] listing(after.0)[i]).id != id
        }),
{
    lemma_submit_with_summary(tables, title, text, Seq::empty());
}

/// Where the label generation call fails after the summary was written,
/// the listing shows the new content with its summary and without labels:
/// it is the listing from before with that one record more, at its end.
pub proof fn lemma_labels_failure_lists_summary(
    tables: Tables,
    title: Seq<char>,
    text: Seq<char>,
    summary_reply: GenerationReplyView,
    labels_reply: GenerationReplyView,
)
    requires
        tables.wf(),
        tables.has_room(),
        summary_of(summary_reply) is Ok,
        labels_of(labels_reply) is Err,
    ensures
        ({
            let after = submit(tables, title, text, summary_reply, labels_reply);
            &&& after.0.wf()
            &&& after.1 == Err::<SummaryAndLabelsView, PipelineError>(
                PipelineError::Generation(labels_of(labels_reply)->Err_0),
            )
            &&& listing(after.0) == listing(tables).push(
                ContentView {
                    id: tables.next_id() as i32,
                    title,
                    content: text,
                    summary: summary_of(summary_reply)->Ok_0,
                    labels: Seq::empty(),
                },
            )
        }),
{
    lemma_submit_with_summary(tables, title, text, summary_of(summary_reply)->Ok_0);
}

/// A submission only appends: whatever its outcome, every table keeps the
/// rows that it had, in their order, and the tables stay well formed. At
/// most one content row is added, with the title and the text that were
/// submitted, and every summary row and label row that is added belongs to
/// that content.
pub proof fn lemma_submit_only_appends(
    tables: Tables,
    title: Seq<char>,
    text: Seq<char>,
    summary_reply: GenerationReplyView,
    labels_reply: GenerationReplyView,
)
    requires
        tables.wf(),
    ensures
        ({
            let after = submit(tables, title, text, summary_reply, labels_reply).0;
            let id = tables.next_id();
            &&& after.wf()
            &&& tables.contents.is_prefix_of(after.contents)
            &&& tables.summaries.is_prefix_of(after.summaries)
            &&& tables.labels.is_prefix_of(after.labels)
            &&& after.contents.len() <= tables.contents.len() + 1
            &&& after.summaries.len() <= tables.summaries.len() + 1
            &&& forall|i: int|
                tables.contents.len() <= i < after.contents.len() ==> #[trigger] after.contents[i]
                    == (ContentRowView { id: id as i32, title, content: text })
            &&& forall|i: int|
                tables.summaries.len() <= i < after.summaries.len() ==> (
                #[trigger] after.summaries[i]).content_id == id
            &&& forall|i: int|
                tables.labels.len() <= i < after.labels.len() ==> (
                #[trigger] after.labels[i]).content_id == id
            &&& forall|i: int|
                0 <= i < tables.contents.len() ==> (#[trigger] tables.contents[i]).id < id
            &&& after != tables ==> after.next_id() == id + 1
        }),
{
    if tables.has_room() {
        let id = tables.next_id() as i32;
        let stored = tables.with_content(title, text);
        lemma_with_content_wf(tables, title, text);
        lemma_most_recent_after_insert(tables, title, text);
        if let Ok(summary) = summary_of(summary_reply) {
            let summarized = stored.with_summary(id, summary);
            lemma_with_summary_wf(stored, id, summary);
            if let Ok(labels) = labels_of(labels_reply) {
                lemma_same_contents(stored, summarized);
                lemma_with_labels_wf(summarized, id, labels);
            }
        }
    } else {
        lemma_most_recent_is_largest(tables);
    }
}

/// Two submissions that run one after the other do not mix their rows: in
/// every table, all rows of the first stand before all rows of the second,
/// and the content of the second has the larger identifier.
pub proof fn lemma_submissions_keep_apart(
    tables: Tables,
    first_title: Seq<char>,
    first_text: Seq<char>,
    first_summary_reply: GenerationReplyView,
    first_labels_reply: GenerationReplyView,
    second_title: Seq<char>,
    second_text: Seq<char>,
    second_summary_reply: GenerationReplyView,
    second_labels_reply: GenerationReplyView,
)
    requires
        tables.wf(),
    ensures
        ({
            let between = submit(
                tables,
                first_title,
                first_text,
                first_summary_reply,
                first_labels_reply,
            ).0;
            let after = submit(
                between,
                second_title,
                second_text,
                second_summary_reply,
                second_labels_reply,
            ).0;
            let first_id = tables.next_id();
            let second_id = between.next_id();
            &&& between.contents.is_prefix_of(after.contents)
            &&& between.summaries.is_prefix_of(after.summaries)
            &&& between.labels.is_prefix_of(after.labels)
            &&& between != tables ==> first_id < second_id
            &&& forall|i: int|
                tables.summaries.len() <= i < between.summaries.len() ==> (
                #[trigger] after.summaries[i]).content_id == first_id
            &&& forall|i: int|
                between.summaries.len() <= i < after.summaries.len() ==> (
                #[trigger] after.summaries[i]).content_id == second_id
            &&& forall|i: int|
                tables.labels.len() <= i < between.labels.len() ==> (
                #[trigger] after.labels[i]).content_id == first_id
            &&& forall|i: int|
                between.labels.len() <= i < after.labels.len() ==> (
                #[trigger] after.labels[i]).content_id == second_id
        }),
{
    let between = submit(tables, first_title, first_text, first_summary_reply, first_labels_reply).0;
    let after = submit(
        between,
        second_title,
        second_text,
        second_summary_reply,
        second_labels_reply,
    ).0;
    lemma_submit_only_appends(
        tables,
        first_title,
        first_text,
        first_summary_reply,
        first_labels_reply,
    );
    lemma_submit_only_appends(
        between,
        second_title,
        second_text,
        second_summary_reply,
        second_labels_reply,
    );
}

/// A submission writes at most one summary, and writes it for a content
/// that had none: where no content had more than one summary before, none
/// has more than one afterwards.
pub proof fn lemma_submit_keeps_one_summary_each(
    tables: Tables,
    title: Seq<char>,
    text: Seq<char>,
    summary_reply: GenerationReplyView,
    labels_reply: GenerationReplyView,
)
    requires
        tables.wf(),
        tables.one_summary_each(),
    ensures
        submit(tables, title, text, summary_reply, labels_reply).0.one_summary_each(),
{
    let after = submit(tables, title, text, summary_reply, labels_reply).0;
    lemma_submit_only_appends(tables, title, text, summary_reply, labels_reply);
    assert forall|i: int, j: int| 0 <= i < j < after.summaries.len() implies (
    #[trigger] after.summaries[i]).content_id != (#[trigger] after.summaries[j]).content_id by {
        if j >= tables.summaries.len() {
            let owner = tables.summaries[i].content_id;
            let k = choose|k: int|
                0 <= k < tables.contents.len() && (#[trigger] tables.contents[k]).id == owner;
            assert(tables.contents[k].id < tables.next_id());
        }
    }
}

} // verus!
