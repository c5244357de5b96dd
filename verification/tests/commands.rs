use brainspread::commands::{get_contents, get_summary_and_labels};
use brainspread::config::Config;
use brainspread::services::db::{StorageError, DB};
use brainspread::services::openai::{
    ApiResponse, Choice, GenerationError, GenerationReply, Message,
};
use brainspread::types::{
    Content, Database, NotFoundError, PipelineError, SummaryAndLabelsResponse,
};

fn config() -> Config {
    Config { openai_api_key: "sk-test".to_string(), database_url: "sqlite://notes.db".to_string() }
}

fn database() -> Database {
    Database::new(Some(DB::new()), "sqlite://notes.db")
}

fn completed(content: &str) -> GenerationReply {
    GenerationReply::Response {
        status: 200,
        body: Some(ApiResponse {
            choices: Some(vec![Choice {
                message: Message { role: "assistant".to_string(), content: content.to_string() },
                index: 0,
                finish_reason: "stop".to_string(),
            }]),
        }),
    }
}

fn texts(items: &[&str]) -> Vec<String> {
    items.iter().map(|s| s.to_string()).collect()
}

#[test]
fn submit_then_list_shows_exactly_one_record_of_the_submission() {
    let mut database = database();
    let response = get_summary_and_labels(
        "Rome",
        "It fell.",
        &mut database,
        &config(),
        completed(" An empire ended. "),
        completed("history, politics, economy, culture, society"),
    );
    assert_eq!(
        response,
        Ok(SummaryAndLabelsResponse {
            summary: "An empire ended.".to_string(),
            labels: texts(&["history", "politics", "economy", "culture", "society"]),
        })
    );
    let records = get_contents(&mut database).unwrap();
    assert_eq!(
        records,
        vec![Content {
            id: 1,
            title: "Rome".to_string(),
            content: "It fell.".to_string(),
            summary: "An empire ended.".to_string(),
            labels: texts(&["history", "politics", "economy", "culture", "society"]),
        }]
    );
    let matching =
        records.iter().filter(|r| r.title == "Rome" && r.content == "It fell.").count();
    assert_eq!(matching, 1);
}

#[test]
fn a_second_submission_adds_its_record_behind_the_first() {
    let mut database = database();
    get_summary_and_labels("one", "1", &mut database, &config(), completed("s1"), completed("a,b"))
        .unwrap();
    let before = get_contents(&mut database).unwrap();
    get_summary_and_labels("two", "2", &mut database, &config(), completed("s2"), completed("c"))
        .unwrap();
    let after = get_contents(&mut database).unwrap();
    assert_eq!(after.len(), before.len() + 1);
    assert_eq!(&after[..before.len()], &before[..]);
    assert_eq!(
        after[1],
        Content {
            id: 2,
            title: "two".to_string(),
            content: "2".to_string(),
            summary: "s2".to_string(),
            labels: texts(&["c"]),
        }
    );
    let db = database.db.as_ref().unwrap();
    assert_eq!(db.get_labels(1), Ok(texts(&["a", "b"])));
    assert_eq!(db.get_labels(2), Ok(texts(&["c"])));
}

#[test]
fn the_same_text_submitted_twice_is_listed_twice() {
    let mut database = database();
    for _ in 0..2 {
        get_summary_and_labels("t", "b", &mut database, &config(), completed("s"), completed("l"))
            .unwrap();
    }
    let records = get_contents(&mut database).unwrap();
    assert_eq!(records.len(), 2);
    assert_eq!(records[0].id, 1);
    assert_eq!(records[1].id, 2);
    assert_eq!(records[0].title, records[1].title);
}

#[test]
fn a_failed_summary_generation_leaves_the_content_unlisted() {
    let mut database = database();
    let response = get_summary_and_labels(
        "Rome",
        "It fell.",
        &mut database,
        &config(),
        GenerationReply::Response { status: 503, body: None },
        completed("history"),
    );
    assert_eq!(response, Err(PipelineError::Generation(GenerationError::Status(503))));
    assert_eq!(get_contents(&mut database), Ok(vec![]));
    let db = database.db.as_ref().unwrap();
    assert_eq!(db.get_most_recent_content(), Ok(Some((1, "Rome".to_string()))));
    assert_eq!(db.get_contents_w_summaries(), Ok(vec![]));
    assert_eq!(db.get_labels(1), Ok(vec![]));
}

#[test]
fn a_failed_label_generation_lists_the_content_without_labels() {
    let mut database = database();
    let response = get_summary_and_labels(
        "Rome",
        "It fell.",
        &mut database,
        &config(),
        completed("An empire ended."),
        GenerationReply::Unreachable,
    );
    assert_eq!(response, Err(PipelineError::Generation(GenerationError::Transport)));
    assert_eq!(
        get_contents(&mut database),
        Ok(vec![Content {
            id: 1,
            title: "Rome".to_string(),
            content: "It fell.".to_string(),
            summary: "An empire ended.".to_string(),
            labels: vec![],
        }])
    );
}

#[test]
fn a_failure_does_not_undo_an_earlier_submission() {
    let mut database = database();
    get_summary_and_labels("one", "1", &mut database, &config(), completed("s1"), completed("a"))
        .unwrap();
    let before = get_contents(&mut database).unwrap();
    let failed = get_summary_and_labels(
        "two",
        "2",
        &mut database,
        &config(),
        GenerationReply::Unreachable,
        completed("b"),
    );
    assert!(failed.is_err());
    assert_eq!(get_contents(&mut database).unwrap(), before);
    get_summary_and_labels("three", "3", &mut database, &config(), completed("s3"), completed("c"))
        .unwrap();
    let after = get_contents(&mut database).unwrap();
    assert_eq!(after.len(), 2);
    assert_eq!(after[0], before[0]);
    assert_eq!(after[1].id, 3);
    assert_eq!(after[1].title, "three");
}

#[test]
fn without_a_database_the_commands_fail() {
    let mut database = Database::new(None, "sqlite://missing.db");
    let response = get_summary_and_labels(
        "t",
        "b",
        &mut database,
        &config(),
        completed("s"),
        completed("l"),
    );
    assert_eq!(response, Err(PipelineError::NotFound(NotFoundError::Database)));
    assert_eq!(
        get_contents(&mut database),
        Err(PipelineError::NotFound(NotFoundError::Database))
    );
    assert!(database.db.is_none());
    assert_eq!(database.database_url, "sqlite://missing.db");
}

#[test]
fn listing_an_empty_store_gives_no_records() {
    let mut database = database();
    assert_eq!(get_contents(&mut database), Ok(vec![]));
}

#[test]
fn listing_writes_nothing() {
    let mut database = database();
    get_summary_and_labels("t", "b", &mut database, &config(), completed("s"), completed("x,y"))
        .unwrap();
    let first = get_contents(&mut database).unwrap();
    let second = get_contents(&mut database).unwrap();
    assert_eq!(first, second);
    assert_eq!(database.db.as_ref().unwrap().get_most_recent_content(), Ok(Some((1, "t".to_string()))));
}

#[test]
fn errors_describe_themselves() {
    assert_eq!(PipelineError::NotFound(NotFoundError::Database).message(), "Database not available");
    assert_eq!(PipelineError::NotFound(NotFoundError::Content).message(), "No content found");
    assert_eq!(
        PipelineError::Storage(StorageError::Connection).message(),
        "storage failed: connection lost"
    );
    assert_eq!(
        PipelineError::Storage(StorageError::Constraint).message(),
        "storage failed: constraint violated"
    );
    assert_eq!(
        PipelineError::Storage(StorageError::Statement).message(),
        "storage failed: malformed statement"
    );
    assert_eq!(
        PipelineError::Generation(GenerationError::Parse).message(),
        "failed parsing response as JSON"
    );
}

#[test]
fn a_configuration_can_be_copied() {
    let first = config();
    let copy = first.clone();
    assert_eq!(copy.openai_api_key, "sk-test");
    assert_eq!(copy.database_url, "sqlite://notes.db");
    assert_eq!(first.openai_api_key, copy.openai_api_key);
}
