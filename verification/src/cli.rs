//! The command line as plain values: global options, subcommands and their
//! arguments.

use vstd::prelude::*;

pub use crate::export::ExportFormat;

verus! {

/// Where the catalog of VIP authors is read from by default.
pub const DEFAULT_AUTHORS_PATH: &'static str = "references/tgb_blog_authors.json";

/// Global options and the subcommand.
#[derive(Debug)]
pub struct Cli {
    /// SQLite database path.
    pub database: String,
    /// Site root address; tests and mirrors may override it.
    pub base_url: String,
    /// Least interval between the starts of two requests, in milliseconds.
    pub delay_ms: u64,
    /// Most requests made for one address on transient errors.
    pub max_attempts: u32,
    /// Timeout of one request, in seconds.
    pub timeout_secs: u64,
    pub command: Command,
}

/// The subcommands.
#[derive(Debug)]
pub enum Command {
    /// Crawl the hot list.
    Hot(HotArgs),
    /// Fetch one article.
    Article(ArticleArgs),
    /// Crawl one author's blog.
    Author(AuthorArgs),
    /// Crawl the elite and pinned articles of the VIP authors.
    Vip(VipArgs),
    /// Show crawl runs.
    Run(RunArgs),
    /// Export stored articles.
    Export(ExportArgs),
}

/// Arguments of the hot list crawl.
#[derive(Debug)]
pub struct HotArgs {
    /// Start of the time range: RFC 3339, `YYYY-MM-DD HH:MM` or `MM-DD HH:MM`.
    pub from: String,
    /// End of the time range, in the same forms.
    pub to: String,
    /// Number of hot list pages.
    pub pages: u32,
    /// Also fetch the bodies.
    pub fetch_body: bool,
    /// Concurrent body requests.
    pub concurrency: usize,
    /// Directory where raw pages are kept.
    pub raw_dir: Option<String>,
}

/// Arguments of a single article fetch.
#[derive(Debug)]
pub struct ArticleArgs {
    /// Article address or the ID after `/a/`.
    pub target: String,
    /// Directory where the raw page is kept.
    pub raw_dir: Option<String>,
    /// Print the article only, without storing it.
    pub no_save: bool,
}

/// Arguments of an author crawl.
#[derive(Debug)]
pub struct AuthorArgs {
    /// Numeric author ID or blog address.
    pub author: String,
    /// Number of blog pages.
    pub pages: u32,
    /// Also fetch the bodies.
    pub fetch_body: bool,
    /// Skip articles whose body is already stored.
    pub resume: bool,
    /// Concurrent body requests.
    pub concurrency: usize,
    /// Directory where raw pages are kept.
    pub raw_dir: Option<String>,
}

/// Arguments of the VIP crawl.
#[derive(Debug)]
pub struct VipArgs {
    /// Catalog of VIP authors (JSON).
    pub authors: String,
    /// Blog pages per author.
    pub pages: u32,
    /// Most authors to crawl.
    pub max_authors: Option<usize>,
    /// Also fetch the bodies.
    pub fetch_body: bool,
    /// Skip articles whose body is already stored.
    pub resume: bool,
    /// Without marked articles, take the first N of the first page.
    pub fallback_top: usize,
    /// Concurrent body requests.
    pub concurrency: usize,
    /// Directory where raw pages are kept.
    pub raw_dir: Option<String>,
}

/// Arguments of the run queries.
#[derive(Debug)]
pub struct RunArgs {
    pub command: RunCommand,
}

/// The run queries.
#[derive(Debug)]
pub enum RunCommand {
    /// The most recent runs.
    List { limit: usize },
    /// One run with its errors.
    Show { run_id: i64 },
}

/// Arguments of an export.
#[derive(Debug)]
pub struct ExportArgs {
    /// Only the articles of this run; all when absent.
    pub run: Option<i64>,
    pub format: ExportFormat,
    /// Output file; standard output when absent.
    pub output: Option<String>,
    /// Only articles whose body was parsed.
    pub only_success: bool,
}

} // verus!
