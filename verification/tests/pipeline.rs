use brainspread::pipeline::{Action, Event, Listing, ListingAction, Submission};
use brainspread::services::db::{StorageError, StorageReply, StorageRequest};
use brainspread::services::openai::{
    labels_request, summary_request, ApiResponse, Choice, GenerationError, GenerationReply, Message,
};
use brainspread::types::{Content, NotFoundError, PipelineError, SummaryAndLabelsResponse};

fn completed(content: &str) -> GenerationReply {
    GenerationReply::Response {
        status: 200,
        body: Some(ApiResponse {
            choices: Some(vec![Choice {
                message: Message { role: "assistant".to_string(), content: content.to_string() },
                index: 0,
                finish_reason: "stop".to_string(),
            }]),
        }),
    }
}

fn affected() -> Event {
    Event::Stored(StorageReply::RowsAffected(1))
}

fn recent(id: i32) -> Event {
    Event::Stored(StorageReply::MostRecentContent(Some((id, "Rome".to_string()))))
}

/// Feeds the events to a new submission and gives the action after the last.
fn after(events: Vec<Event>) -> (Submission, Action) {
    let (mut submission, mut action) = Submission::begin("key", "Rome", "It fell.");
    for event in events {
        let next = submission.advance(event);
        submission = next.0;
        action = next.1;
    }
    (submission, action)
}

#[test]
fn a_submission_begins_by_writing_the_content() {
    let (submission, action) = Submission::begin("key", "Rome", "It fell.");
    assert!(!submission.is_finished());
    assert_eq!(
        action,
        Action::Store(StorageRequest::InsertContent {
            title: "Rome".to_string(),
            content: "It fell.".to_string()
        })
    );
}

#[test]
fn the_steps_of_a_submission_follow_in_the_fixed_order() {
    let (submission, action) = Submission::begin("key", "Rome", "It fell.");
    assert!(matches!(action, Action::Store(StorageRequest::InsertContent { .. })));

    let (submission, action) = submission.advance(affected());
    assert_eq!(action, Action::Store(StorageRequest::MostRecentContent));

    let (submission, action) = submission.advance(recent(7));
    assert_eq!(action, Action::Generate(summary_request("key", "Rome", "It fell.")));

    let (submission, action) =
        submission.advance(Event::Generated(completed("  An empire ended. \n")));
    assert_eq!(
        action,
        Action::Store(StorageRequest::InsertSummary {
            content_id: 7,
            summary: "An empire ended.".to_string()
        })
    );

    let (submission, action) = submission.advance(affected());
    assert_eq!(action, Action::Generate(labels_request("key", "Rome", "It fell.")));

    let (submission, action) =
        submission.advance(Event::Generated(completed("history, politics ,economy")));
    assert_eq!(
        action,
        Action::Store(StorageRequest::InsertLabel { content_id: 7, name: "history".to_string() })
    );

    let (submission, action) = submission.advance(affected());
    assert_eq!(
        action,
        Action::Store(StorageRequest::InsertLabel { content_id: 7, name: "politics".to_string() })
    );

    let (submission, action) = submission.advance(affected());
    assert_eq!(
        action,
        Action::Store(StorageRequest::InsertLabel { content_id: 7, name: "economy".to_string() })
    );
    assert!(!submission.is_finished());

    let (submission, action) = submission.advance(affected());
    assert!(submission.is_finished());
    assert_eq!(
        action,
        Action::Return(SummaryAndLabelsResponse {
            summary: "An empire ended.".to_string(),
            labels: vec!["history".to_string(), "politics".to_string(), "economy".to_string()],
        })
    );
}

#[test]
fn a_finished_submission_does_nothing_more() {
    let (submission, action) = after(vec![Event::Stored(StorageReply::Failed(
        StorageError::Connection,
    ))]);
    assert!(submission.is_finished());
    assert_eq!(action, Action::Fail(PipelineError::Storage(StorageError::Connection)));
    let (submission, action) = submission.advance(affected());
    assert!(submission.is_finished());
    assert_eq!(action, Action::Nothing);
    let (submission, action) = submission.advance(Event::Generated(completed("x")));
    assert!(submission.is_finished());
    assert_eq!(action, Action::Nothing);
}

#[test]
fn a_failed_content_insert_ends_the_submission() {
    for error in [StorageError::Connection, StorageError::Constraint, StorageError::Statement] {
        let (submission, action) = after(vec![Event::Stored(StorageReply::Failed(error))]);
        assert!(submission.is_finished());
        assert_eq!(action, Action::Fail(PipelineError::Storage(error)));
    }
}

#[test]
fn a_missing_content_after_the_insert_ends_the_submission() {
    let (submission, action) =
        after(vec![affected(), Event::Stored(StorageReply::MostRecentContent(None))]);
    assert!(submission.is_finished());
    assert_eq!(action, Action::Fail(PipelineError::NotFound(NotFoundError::Content)));
}

#[test]
fn a_failed_read_of_the_identifier_ends_the_submission() {
    let (submission, action) =
        after(vec![affected(), Event::Stored(StorageReply::Failed(StorageError::Connection))]);
    assert!(submission.is_finished());
    assert_eq!(action, Action::Fail(PipelineError::Storage(StorageError::Connection)));
}

#[test]
fn a_failed_summary_generation_ends_the_submission_before_any_summary_is_written() {
    let replies = vec![
        (GenerationReply::Unreachable, GenerationError::Transport),
        (GenerationReply::Response { status: 500, body: None }, GenerationError::Status(500)),
        (GenerationReply::Response { status: 200, body: None }, GenerationError::Parse),
        (
            GenerationReply::Response { status: 200, body: Some(ApiResponse { choices: None }) },
            GenerationError::NoCompletion,
        ),
    ];
    for (reply, error) in replies {
        let (submission, action) = after(vec![affected(), recent(3), Event::Generated(reply)]);
        assert!(submission.is_finished());
        assert_eq!(action, Action::Fail(PipelineError::Generation(error)));
    }
}

#[test]
fn a_failed_summary_insert_ends_the_submission() {
    let (submission, action) = after(vec![
        affected(),
        recent(3),
        Event::Generated(completed("s")),
        Event::Stored(StorageReply::Failed(StorageError::Constraint)),
    ]);
    assert!(submission.is_finished());
    assert_eq!(action, Action::Fail(PipelineError::Storage(StorageError::Constraint)));
}

#[test]
fn a_failed_label_generation_ends_the_submission_before_any_label_is_written() {
    let (submission, action) = after(vec![
        affected(),
        recent(3),
        Event::Generated(completed("s")),
        affected(),
        Event::Generated(GenerationReply::Unreachable),
    ]);
    assert!(submission.is_finished());
    assert_eq!(action, Action::Fail(PipelineError::Generation(GenerationError::Transport)));
}

#[test]
fn a_failed_label_insert_ends_the_submission_midway() {
    let (submission, action) = after(vec![
        affected(),
        recent(3),
        Event::Generated(completed("s")),
        affected(),
        Event::Generated(completed("a,b,c")),
        affected(),
        Event::Stored(StorageReply::Failed(StorageError::Connection)),
    ]);
    assert!(submission.is_finished());
    assert_eq!(action, Action::Fail(PipelineError::Storage(StorageError::Connection)));
}

#[test]
fn an_answer_of_the_wrong_kind_ends_the_submission() {
    let (_, action) = after(vec![Event::Generated(completed("x"))]);
    assert_eq!(action, Action::Fail(PipelineError::Storage(StorageError::Statement)));

    let (_, action) = after(vec![Event::Stored(StorageReply::Labels(vec![]))]);
    assert_eq!(action, Action::Fail(PipelineError::Storage(StorageError::Statement)));

    let (_, action) = after(vec![affected(), affected()]);
    assert_eq!(action, Action::Fail(PipelineError::Storage(StorageError::Statement)));

    let (_, action) = after(vec![affected(), recent(3), affected()]);
    assert_eq!(action, Action::Fail(PipelineError::Generation(GenerationError::Parse)));

    let (_, action) =
        after(vec![affected(), recent(3), Event::Generated(completed("s")), recent(3)]);
    assert_eq!(action, Action::Fail(PipelineError::Storage(StorageError::Statement)));

    let (_, action) = after(vec![
        affected(),
        recent(3),
        Event::Generated(completed("s")),
        affected(),
        affected(),
    ]);
    assert_eq!(action, Action::Fail(PipelineError::Generation(GenerationError::Parse)));
}

#[test]
fn the_number_of_rows_affected_is_not_judged() {
    let (submission, action) = after(vec![Event::Stored(StorageReply::RowsAffected(0))]);
    assert!(!submission.is_finished());
    assert_eq!(action, Action::Store(StorageRequest::MostRecentContent));
}

fn row(id: i32, title: &str) -> (i32, String, String, String) {
    (id, title.to_string(), format!("body of {}", title), format!("summary of {}", title))
}

#[test]
fn a_listing_asks_for_the_labels_row_by_row() {
    let (listing, action) = Listing::begin();
    assert!(!listing.is_finished());
    assert_eq!(action, ListingAction::Store(StorageRequest::ContentsWithSummaries));

    let rows = vec![row(2, "two"), row(5, "five")];
    let (listing, action) =
        listing.advance(Event::Stored(StorageReply::ContentsWithSummaries(rows)));
    assert_eq!(action, ListingAction::Store(StorageRequest::Labels { content_id: 2 }));

    let (listing, action) =
        listing.advance(Event::Stored(StorageReply::Labels(vec!["a".to_string()])));
    assert_eq!(action, ListingAction::Store(StorageRequest::Labels { content_id: 5 }));
    assert!(!listing.is_finished());

    let (listing, action) = listing.advance(Event::Stored(StorageReply::Labels(vec![])));
    assert!(listing.is_finished());
    assert_eq!(
        action,
        ListingAction::Return(vec![
            Content {
                id: 2,
                title: "two".to_string(),
                content: "body of two".to_string(),
                summary: "summary of two".to_string(),
                labels: vec!["a".to_string()],
            },
            Content {
                id: 5,
                title: "five".to_string(),
                content: "body of five".to_string(),
                summary: "summary of five".to_string(),
                labels: vec![],
            },
        ])
    );

    let (listing, action) = listing.advance(Event::Stored(StorageReply::Labels(vec![])));
    assert!(listing.is_finished());
    assert_eq!(action, ListingAction::Nothing);
}

#[test]
fn a_listing_of_nothing_returns_at_once() {
    let (listing, _) = Listing::begin();
    let (listing, action) =
        listing.advance(Event::Stored(StorageReply::ContentsWithSummaries(vec![])));
    assert!(listing.is_finished());
    assert_eq!(action, ListingAction::Return(vec![]));
}

#[test]
fn a_failed_read_ends_the_listing() {
    let (listing, _) = Listing::begin();
    let (listing, action) =
        listing.advance(Event::Stored(StorageReply::Failed(StorageError::Connection)));
    assert!(listing.is_finished());
    assert_eq!(action, ListingAction::Fail(PipelineError::Storage(StorageError::Connection)));

    let (listing, _) = Listing::begin();
    let (listing, _) =
        listing.advance(Event::Stored(StorageReply::ContentsWithSummaries(vec![row(1, "one")])));
    let (listing, action) =
        listing.advance(Event::Stored(StorageReply::Failed(StorageError::Statement)));
    assert!(listing.is_finished());
    assert_eq!(action, ListingAction::Fail(PipelineError::Storage(StorageError::Statement)));

    let (listing, _) = Listing::begin();
    let (_, action) = listing.advance(Event::Generated(GenerationReply::Unreachable));
    assert_eq!(action, ListingAction::Fail(PipelineError::Storage(StorageError::Statement)));
}
