//! What one line of ripgrep's JSON output reports.
use crate::json::{json_at, read_json, JsonField, JsonFieldView};
use crate::search::{FileSearchMatch, MatchView};
use crate::text::split::{
    replace_char, replaced, trim_line_breaks_at_end, without_line_breaks_at_end,
};
use crate::text::same_text;
use vstd::prelude::*;

verus! {

/// A matching line and the file it stands in.
#[derive(Debug, Clone)]
pub struct Hit {
    pub file_path: String,
    pub found: FileSearchMatch,
}

/// The model of a [`Hit`].
pub struct HitView {
    pub file_path: Seq<char>,
    pub found: MatchView,
}

impl View for Hit {
    type V = HitView;

    open spec fn view(&self) -> HitView {
        HitView { file_path: self.file_path@, found: self.found@ }
    }
}

/// The hit that the four fields of a message report: there is one where the message is a match, it
/// names its file, and the line number is an unsigned integer. The path is written with `/`; line
/// breaks at the end of the line are dropped, and a line without a text counts as empty.
pub open spec fn reported_hit(
    kind: JsonFieldView,
    path: JsonFieldView,
    number: JsonFieldView,
    text: JsonFieldView,
) -> Option<HitView> {
    match (kind, path, number) {
        (
            JsonFieldView::Text(k),
            JsonFieldView::Text(p),
            JsonFieldView::Number(Some(n)),
        ) => if k == "match"@ {
            Some(
                HitView {
                    file_path: replaced(p, '\\', '/'),
                    found: MatchView {
                        line_number: n as usize,
                        line_text: match text {
                            JsonFieldView::Text(t) => without_line_breaks_at_end(t),
                            _ => Seq::empty(),
                        },
                    },
                },
            )
        } else {
            None
        },
        _ => None,
    }
}

/// Does a message with this kind report a match?
fn is_match_kind(kind: &JsonField) -> (yes: bool)
    ensures
        yes == (kind@ == JsonFieldView::Text("match"@)),
{
    match kind {
        JsonField::Text(k) => same_text(k.as_str(), "match"),
        _ => false,
    }
}

/// The hit that the fields of a message report.
pub fn hit_of_fields(
    kind: JsonField,
    path: JsonField,
    number: JsonField,
    text: JsonField,
) -> (hit: Option<Hit>)
    ensures
        match hit {
            Some(h) => reported_hit(kind@, path@, number@, text@) == Some(h@),
            None => reported_hit(kind@, path@, number@, text@) is None,
        },
{
    if !is_match_kind(&kind) {
        return None;
    }
    let file_path = match path {
        JsonField::Text(p) => replace_char(p.as_str(), '\\', '/'),
        _ => return None,
    };
    let line_number: usize = match number {
        JsonField::Number(Some(n)) => n as usize,
        _ => return None,
    };
    let line_text = match text {
        JsonField::Text(t) => trim_line_breaks_at_end(t.as_str()),
        _ => String::new(),
    };
    Some(Hit { file_path, found: FileSearchMatch { line_number, line_text } })
}

/// Where a message says what it is.
pub open spec fn kind_pointer() -> Seq<char> {
    "/type"@
}

/// Where a match names its file.
pub open spec fn path_pointer() -> Seq<char> {
    "/data/path/text"@
}

/// Where a match gives its line number.
pub open spec fn number_pointer() -> Seq<char> {
    "/data/line_number"@
}

/// Where a match quotes its line.
pub open spec fn text_pointer() -> Seq<char> {
    "/data/lines/text"@
}

/// The hit that a line of output reports: none where the line is no JSON document.
pub open spec fn line_hit(line: Seq<char>) -> Option<HitView> {
    match (
        json_at(line, kind_pointer()),
        json_at(line, path_pointer()),
        json_at(line, number_pointer()),
        json_at(line, text_pointer()),
    ) {
        (Some(kind), Some(path), Some(number), Some(text)) => reported_hit(
            kind,
            path,
            number,
            text,
        ),
        _ => None,
    }
}

/// The hit that a line of output reports.
pub fn hit_of_line(line: &str) -> (hit: Option<Hit>)
    ensures
        match hit {
            Some(h) => line_hit(line@) == Some(h@),
            None => line_hit(line@) is None,
        },
{
    let kind = match read_json(line, "/type") {
        Some(field) => field,
        None => return None,
    };
    if !is_match_kind(&kind) {
        return None;
    }
    let path = match read_json(line, "/data/path/text") {
        Some(field) => field,
        None => return None,
    };
    let number = match read_json(line, "/data/line_number") {
        Some(field) => field,
        None => return None,
    };
    let text = match read_json(line, "/data/lines/text") {
        Some(field) => field,
        None => return None,
    };
    hit_of_fields(kind, path, number, text)
}

}
