//! A local store of RSS and Atom feeds and their articles, with the rules by
//! which feeds and articles are added, refreshed, pruned, marked read,
//! listed and exported.
pub mod cli;
pub mod content_laws;
pub mod db;
pub mod disk_laws;
pub mod export;
pub mod fetch;
pub mod laws;
pub mod models;
pub mod scan;
pub mod sqlite;
pub mod store;
pub mod text;
pub mod timestamp;

pub use cli::{Cli, Commands, FeedCommands, Format};
pub use db::{DbClient, DbError};
pub use export::{write_articles, ExportError};
pub use fetch::{FetchError, RefreshEvent, RefreshTally};
pub use models::{Article, Feed, NewArticle, NewFeed};
pub use timestamp::Timestamp;
