use brainspread::services::db::{
    connect_options, statement, JournalMode, Parameter, StorageError, StorageReply,
    StorageRequest, DB,
};

fn texts(items: &[&str]) -> Vec<String> {
    items.iter().map(|s| s.to_string()).collect()
}

#[test]
fn most_recent_content_of_an_empty_table_is_none() {
    let db = DB::new();
    assert_eq!(db.get_most_recent_content(), Ok(None));
}

#[test]
fn most_recent_content_is_the_row_with_the_largest_identifier() {
    let mut db = DB::new();
    assert_eq!(db.insert_content("first", "one"), Ok(1));
    assert_eq!(db.get_most_recent_content(), Ok(Some((1, "first".to_string()))));
    assert_eq!(db.insert_content("second", "two"), Ok(1));
    assert_eq!(db.get_most_recent_content(), Ok(Some((2, "second".to_string()))));
    for n in 3..=50 {
        assert_eq!(db.insert_content(&format!("title {}", n), "body"), Ok(1));
        assert_eq!(db.get_most_recent_content(), Ok(Some((n, format!("title {}", n)))));
    }
}

#[test]
fn identifiers_are_given_in_order_and_never_twice() {
    let mut db = DB::new();
    for n in 1..=20 {
        assert!(!db.has_content(n));
        assert_eq!(db.insert_content("same title", "same body"), Ok(1));
        assert!(db.has_content(n));
    }
    assert!(!db.has_content(0));
    assert!(!db.has_content(21));
    assert!(!db.has_content(-1));
}

#[test]
fn labels_come_back_in_the_order_of_their_insertion() {
    let mut db = DB::new();
    db.insert_content("t", "b").unwrap();
    assert_eq!(db.insert_labels(1, texts(&["a", "b", "c"])), Ok(3));
    assert_eq!(db.get_labels(1), Ok(texts(&["a", "b", "c"])));
}

#[test]
fn labels_of_several_inserts_follow_each_other() {
    let mut db = DB::new();
    db.insert_content("t", "b").unwrap();
    db.insert_content("u", "c").unwrap();
    assert_eq!(db.insert_labels(1, texts(&["c", "a"])), Ok(2));
    assert_eq!(db.insert_labels(2, texts(&["x"])), Ok(1));
    assert_eq!(db.insert_labels(1, texts(&["b", "a"])), Ok(2));
    assert_eq!(db.get_labels(1), Ok(texts(&["c", "a", "b", "a"])));
    assert_eq!(db.get_labels(2), Ok(texts(&["x"])));
    assert_eq!(db.get_labels(3), Ok(texts(&[])));
}

#[test]
fn no_labels_are_no_rows() {
    let mut db = DB::new();
    assert_eq!(db.insert_labels(7, Vec::new()), Ok(0));
    db.insert_content("t", "b").unwrap();
    assert_eq!(db.insert_labels(1, Vec::new()), Ok(0));
    assert_eq!(db.get_labels(1), Ok(Vec::new()));
}

#[test]
fn a_summary_needs_its_content() {
    let mut db = DB::new();
    assert_eq!(db.insert_summary(1, "s"), Err(StorageError::Constraint));
    db.insert_content("t", "b").unwrap();
    assert_eq!(db.insert_summary(2, "s"), Err(StorageError::Constraint));
    assert_eq!(db.insert_summary(1, "s"), Ok(1));
    assert_eq!(db.get_contents_w_summaries().unwrap().len(), 1);
}

#[test]
fn labels_need_their_content() {
    let mut db = DB::new();
    assert_eq!(db.insert_labels(1, texts(&["a"])), Err(StorageError::Constraint));
    db.insert_content("t", "b").unwrap();
    assert_eq!(db.insert_labels(5, texts(&["a", "b"])), Err(StorageError::Constraint));
    assert_eq!(db.get_labels(5), Ok(Vec::new()));
    assert_eq!(db.get_labels(1), Ok(Vec::new()));
}

#[test]
fn contents_without_a_summary_are_left_out_of_the_join() {
    let mut db = DB::new();
    db.insert_content("one", "1").unwrap();
    db.insert_content("two", "2").unwrap();
    db.insert_content("three", "3").unwrap();
    assert_eq!(db.get_contents_w_summaries(), Ok(Vec::new()));
    db.insert_summary(3, "S3").unwrap();
    db.insert_summary(1, "S1").unwrap();
    assert_eq!(
        db.get_contents_w_summaries(),
        Ok(vec![
            (1, "one".to_string(), "1".to_string(), "S1".to_string()),
            (3, "three".to_string(), "3".to_string(), "S3".to_string()),
        ])
    );
}

#[test]
fn a_content_with_two_summaries_is_joined_twice() {
    let mut db = DB::new();
    db.insert_content("one", "1").unwrap();
    db.insert_content("two", "2").unwrap();
    db.insert_summary(2, "b").unwrap();
    db.insert_summary(1, "a").unwrap();
    db.insert_summary(2, "c").unwrap();
    assert_eq!(
        db.get_contents_w_summaries(),
        Ok(vec![
            (1, "one".to_string(), "1".to_string(), "a".to_string()),
            (2, "two".to_string(), "2".to_string(), "b".to_string()),
            (2, "two".to_string(), "2".to_string(), "c".to_string()),
        ])
    );
}

#[test]
fn perform_answers_each_request() {
    let mut db = DB::new();
    assert_eq!(
        db.perform(&StorageRequest::MostRecentContent),
        StorageReply::MostRecentContent(None)
    );
    assert_eq!(
        db.perform(&StorageRequest::InsertContent {
            title: "t".to_string(),
            content: "b".to_string()
        }),
        StorageReply::RowsAffected(1)
    );
    assert_eq!(
        db.perform(&StorageRequest::MostRecentContent),
        StorageReply::MostRecentContent(Some((1, "t".to_string())))
    );
    assert_eq!(
        db.perform(&StorageRequest::InsertSummary { content_id: 1, summary: "s".to_string() }),
        StorageReply::RowsAffected(1)
    );
    assert_eq!(
        db.perform(&StorageRequest::InsertSummary { content_id: 9, summary: "s".to_string() }),
        StorageReply::Failed(StorageError::Constraint)
    );
    assert_eq!(
        db.perform(&StorageRequest::InsertLabel { content_id: 1, name: "l".to_string() }),
        StorageReply::RowsAffected(1)
    );
    assert_eq!(
        db.perform(&StorageRequest::InsertLabel { content_id: 9, name: "l".to_string() }),
        StorageReply::Failed(StorageError::Constraint)
    );
    assert_eq!(
        db.perform(&StorageRequest::ContentsWithSummaries),
        StorageReply::ContentsWithSummaries(vec![(
            1,
            "t".to_string(),
            "b".to_string(),
            "s".to_string()
        )])
    );
    assert_eq!(
        db.perform(&StorageRequest::Labels { content_id: 1 }),
        StorageReply::Labels(vec!["l".to_string()])
    );
    assert_eq!(db.perform(&StorageRequest::Labels { content_id: 9 }), StorageReply::Labels(vec![]));
}

#[test]
fn statements_bind_every_value() {
    let it = statement(&StorageRequest::InsertContent {
        title: "Robert'); DROP TABLE contents;--".to_string(),
        content: "b".to_string(),
    });
    assert_eq!(it.sql, "INSERT INTO contents (title, content) VALUES (?, ?)");
    assert_eq!(
        it.parameters,
        vec![
            Parameter::Text("Robert'); DROP TABLE contents;--".to_string()),
            Parameter::Text("b".to_string())
        ]
    );

    let it = statement(&StorageRequest::MostRecentContent);
    assert_eq!(it.sql, "SELECT id, title FROM contents WHERE id = (SELECT MAX(id) FROM contents)");
    assert_eq!(it.parameters, vec![]);

    let it = statement(&StorageRequest::InsertSummary { content_id: 4, summary: "s".to_string() });
    assert_eq!(it.sql, "INSERT INTO summaries (content_id, content) VALUES (?, ?)");
    assert_eq!(it.parameters, vec![Parameter::Integer(4), Parameter::Text("s".to_string())]);

    let it = statement(&StorageRequest::InsertLabel { content_id: 4, name: "n".to_string() });
    assert_eq!(it.sql, "INSERT INTO labels (content_id, name) VALUES (?, ?)");
    assert_eq!(it.parameters, vec![Parameter::Integer(4), Parameter::Text("n".to_string())]);

    let it = statement(&StorageRequest::ContentsWithSummaries);
    assert_eq!(
        it.sql,
        "SELECT contents.id, contents.title, contents.content, summaries.content FROM contents INNER JOIN summaries ON summaries.content_id = contents.id ORDER BY contents.id, summaries.rowid"
    );
    assert_eq!(it.parameters, vec![]);

    let it = statement(&StorageRequest::Labels { content_id: -3 });
    assert_eq!(it.sql, "SELECT name FROM labels WHERE content_id = ? ORDER BY rowid");
    assert_eq!(it.parameters, vec![Parameter::Integer(-3)]);
}

#[test]
fn a_statement_has_one_placeholder_per_value() {
    let requests = vec![
        StorageRequest::InsertContent { title: "a?b".to_string(), content: "?".to_string() },
        StorageRequest::MostRecentContent,
        StorageRequest::InsertSummary { content_id: 1, summary: "??".to_string() },
        StorageRequest::InsertLabel { content_id: 1, name: "?".to_string() },
        StorageRequest::ContentsWithSummaries,
        StorageRequest::Labels { content_id: 1 },
    ];
    for request in &requests {
        let it = statement(request);
        assert_eq!(it.sql.matches('?').count(), it.parameters.len());
    }
}

#[test]
fn the_store_is_opened_with_foreign_keys_and_a_write_ahead_log() {
    let options = connect_options("sqlite://notes.db");
    assert_eq!(options.url, "sqlite://notes.db");
    assert!(options.foreign_keys);
    assert_eq!(options.journal_mode, JournalMode::Wal);
}

#[test]
fn result_codes_of_refused_rows_are_constraint_violations() {
    for code in ["19", "275", "531", "787", "1043", "1299", "1555", "1811", "2067", "2323", "2579"] {
        assert_eq!(StorageError::from_code(code), StorageError::Constraint, "code {}", code);
    }
    assert_eq!(StorageError::from_code("0019"), StorageError::Constraint);
    assert_eq!(
        StorageError::from_code("25600000000000000000000000000000000000019"),
        StorageError::Constraint
    );
}

#[test]
fn other_result_codes_are_malformed_statements() {
    for code in ["0", "1", "5", "18", "20", "26", "256", "786", "788", "1554", "190", "119"] {
        assert_eq!(StorageError::from_code(code), StorageError::Statement, "code {}", code);
    }
    for text in ["", " ", "-19", "+19", "19 ", " 19", "1_9", "x", "19.0", "\u{661}\u{669}"] {
        assert_eq!(StorageError::from_code(text), StorageError::Statement, "text {:?}", text);
    }
}
