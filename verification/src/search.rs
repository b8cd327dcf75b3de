//! Searching a project: for text in files, by way of ripgrep, and for file names.
use vstd::prelude::*;

pub mod args;
pub mod commands;
pub mod content;
pub mod content_laws;
pub mod files;
pub mod groups;
pub mod hits;
pub mod laws;
pub mod rg;

verus! {

/// One matching line of a file.
#[derive(Debug, Clone)]
pub struct FileSearchMatch {
    pub line_number: usize,
    pub line_text: String,
}

/// The model of a [`FileSearchMatch`].
pub struct MatchView {
    pub line_number: usize,
    pub line_text: Seq<char>,
}

impl View for FileSearchMatch {
    type V = MatchView;

    open spec fn view(&self) -> MatchView {
        MatchView { line_number: self.line_number, line_text: self.line_text@ }
    }
}

/// The matching lines of one file.
#[derive(Debug, Clone)]
pub struct FileSearchResult {
    pub file_path: String,
    pub matches: Vec<FileSearchMatch>,
}

/// The model of a [`FileSearchResult`].
pub struct ResultView {
    pub file_path: Seq<char>,
    pub matches: Seq<MatchView>,
}

/// The models of the matching lines of a file.
pub open spec fn match_views(matches: Seq<FileSearchMatch>) -> Seq<MatchView> {
    matches.map_values(|m: FileSearchMatch| m@)
}

impl View for FileSearchResult {
    type V = ResultView;

    open spec fn view(&self) -> ResultView {
        ResultView { file_path: self.file_path@, matches: match_views(self.matches@) }
    }
}

/// The models of the results of a search.
pub open spec fn result_views(results: Seq<FileSearchResult>) -> Seq<ResultView> {
    results.map_values(|r: FileSearchResult| r@)
}

/// The answer to a content search.
#[derive(Debug, Clone)]
pub struct FileSearchResponse {
    pub results: Vec<FileSearchResult>,
    pub truncated: bool,
    pub scanned_files: usize,
    pub failed_files: usize,
}

/// A content search that is answered at once.
#[derive(Debug, Clone)]
pub struct SearchContentRequest {
    pub root_path: String,
    pub query: String,
}

/// A content search that is answered in batches.
#[derive(Debug, Clone)]
pub struct SearchContentStreamRequest {
    pub root_path: String,
    pub query: String,
    pub search_id: String,
}

/// Asks for a running content search to end.
#[derive(Debug, Clone)]
pub struct SearchContentCancelRequest {
    pub search_id: String,
}

/// Some of the results of a running content search.
#[derive(Debug, Clone)]
pub struct SearchContentBatchEvent {
    pub search_id: String,
    pub results: Vec<FileSearchResult>,
    pub truncated: bool,
}

/// The end of a content search that was answered in batches.
#[derive(Debug, Clone)]
pub struct SearchContentDoneEvent {
    pub search_id: String,
    pub truncated: bool,
    pub scanned_files: usize,
    pub failed_files: usize,
    pub error: Option<String>,
}

/// A search for file names.
#[derive(Debug, Clone)]
pub struct SearchFileNamesRequest {
    pub root_path: String,
    pub query: String,
}

/// The answer to a search for file names.
#[derive(Debug, Clone)]
pub struct SearchFileNamesResponse {
    pub files: Vec<String>,
    pub truncated: bool,
}

/// Which ripgrep the searches run.
#[derive(Debug, Clone)]
pub struct RgInfoResponse {
    pub sidecar_binary_name: String,
    pub resolved_path: String,
    pub source: String,
    pub exists: bool,
}

/// How many files with matches a content search reports.
pub const MAX_FILES_WITH_MATCHES: usize = 100;

/// How many matches of one file a content search reports.
pub const MAX_MATCHES_PER_FILE: usize = 30;

/// How many matches wait for a batch before it is sent.
pub const BATCH_MATCHES: usize = 25;

/// How many file names a search for them reports.
pub const MAX_FILE_NAMES: usize = 100;

}
