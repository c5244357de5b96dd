//! What the commands exchange with their caller: the database handle, the
//! responses, and the errors.

use crate::services::db::{StorageError, Tables, DB};
use crate::services::openai::GenerationError;
use vstd::prelude::*;

verus! {

/// Something that a command needs is not there.
#[derive(Debug, Clone, Copy, PartialEq, Eq, Structural)]
pub enum NotFoundError {
    /// No content row was found after one was inserted.
    Content,
    /// No database is available: it could not be opened at startup.
    Database,
}

/// Why a command failed.
#[derive(Debug, Clone, Copy, PartialEq, Eq, Structural)]
pub enum PipelineError {
    /// A storage operation failed.
    Storage(StorageError),
    /// A generation call failed.
    Generation(GenerationError),
    /// A row or the database itself was not there.
    NotFound(NotFoundError),
}

/// What a submission returns: the summary and the labels that were derived.
#[derive(Debug, PartialEq, Eq)]
pub struct SummaryAndLabelsResponse {
    pub summary: String,
    pub labels: Vec<String>,
}

/// An enriched record: a content with its summary and all its labels.
#[derive(Debug, PartialEq, Eq)]
pub struct Content {
    pub id: i32,
    pub title: String,
    pub content: String,
    pub summary: String,
    pub labels: Vec<String>,
}

/// The database as the commands hold it. `db` is `None` where the store
/// could not be opened.
pub struct Database {
    /// The storage engine.
    pub db: Option<DB>,
    /// The database url.
    pub database_url: String,
}

/// A `SummaryAndLabelsResponse` as the contracts see it: each text by its characters.
pub struct SummaryAndLabelsView {
    pub summary: Seq<char>,
    pub labels: Seq<Seq<char>>,
}

/// A `Content` as the contracts see it: each text by its characters.
pub struct ContentView {
    pub id: i32,
    pub title: Seq<char>,
    pub content: Seq<char>,
    pub summary: Seq<char>,
    pub labels: Seq<Seq<char>>,
}

/// A `Database` as the contracts see it: the tables of its engine, and its url.
pub struct DatabaseView {
    pub db: Option<Tables>,
    pub database_url: Seq<char>,
}

impl View for SummaryAndLabelsResponse {
    type V = SummaryAndLabelsView;

    open spec fn view(&self) -> SummaryAndLabelsView {
        SummaryAndLabelsView { summary: self.summary@, labels: self.labels.deep_view() }
    }
}

impl View for Content {
    type V = ContentView;

    open spec fn view(&self) -> ContentView {
        ContentView {
            id: self.id,
            title: self.title@,
            content: self.content@,
            summary: self.summary@,
            labels: self.labels.deep_view(),
        }
    }
}

impl DeepView for Content {
    type V = ContentView;

    open spec fn deep_view(&self) -> ContentView {
        self@
    }
}

impl View for Database {
    type V = DatabaseView;

    open spec fn view(&self) -> DatabaseView {
        DatabaseView {
            db: match self.db {
                Some(db) => Some(db@),
                None => None,
            },
            database_url: self.database_url@,
        }
    }
}

impl DatabaseView {
    /// The tables of the engine, where there is one, are well formed.
    pub open spec fn wf(self) -> bool {
        self.db matches Some(tables) ==> tables.wf()
    }
}

impl NotFoundError {
    /// What `message` says of this error.
    pub open spec fn message_text(self) -> Seq<char> {
        match self {
            NotFoundError::Content => "No content found"@,
            NotFoundError::Database => "Database not available"@,
        }
    }

    /// A description of the error for the user.
    pub fn message(&self) -> (text: String)
        ensures
            text@ == self.message_text(),
    {
        match self {
            NotFoundError::Content => String::from_str("No content found"),
            NotFoundError::Database => String::from_str("Database not available"),
        }
    }
}

impl PipelineError {
    /// What `message` says of this error: what the error inside it says.
    pub open spec fn message_text(self) -> Seq<char> {
        match self {
            PipelineError::Storage(error) => error.message_text(),
            PipelineError::Generation(error) => error.message_text(),
            PipelineError::NotFound(error) => error.message_text(),
        }
    }

    /// The single message that the caller of a failed command gets.
    pub fn message(&self) -> (text: String)
        ensures
            text@ == self.message_text(),
    {
        match self {
            PipelineError::Storage(error) => error.message(),
            PipelineError::Generation(error) => error.message(),
            PipelineError::NotFound(error) => error.message(),
        }
    }
}

impl Database {
    /// A database that holds `db`, opened at `database_url`.
    pub fn new(db: Option<DB>, database_url: &str) -> (database: Database)
        requires
            db matches Some(engine) ==> engine@.wf(),
        ensures
            database.db == db,
            database.database_url@ == database_url@,
            database@.wf(),
    {
        Database { db, database_url: String::from_str(database_url) }
    }
}

} // verus!
