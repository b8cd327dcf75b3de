//! The commands on browser tabs, and the reports that tabs send.
//!
//! A tab that reports something must be the tab that the report is about.
use super::terminal::{answer, answers};
use crate::ipc::IpcResult;
use crate::json::JsonField;
use crate::text::{concat3, concat5, same_text};
use vstd::prelude::*;

verus! {

/// What is answered once a tab was created, or was not.
pub fn browser_tab_create<T>(result: Result<T, String>) -> (a: IpcResult<T>)
    ensures
        answers(a, result, "BROWSER_TAB_CREATE_FAILED"@),
{
    answer(result, "BROWSER_TAB_CREATE_FAILED")
}

/// What is answered once a tab was sent to another page, or was not.
pub fn browser_tab_navigate(result: Result<(), String>) -> (a: IpcResult<()>)
    ensures
        answers(a, result, "BROWSER_TAB_NAVIGATE_FAILED"@),
{
    answer(result, "BROWSER_TAB_NAVIGATE_FAILED")
}

/// What is answered once a tab was moved or resized, or was not.
pub fn browser_tab_resize(result: Result<(), String>) -> (a: IpcResult<()>)
    ensures
        answers(a, result, "BROWSER_TAB_RESIZE_FAILED"@),
{
    answer(result, "BROWSER_TAB_RESIZE_FAILED")
}

/// What is answered once a tab was shown, or was not.
pub fn browser_tab_show(result: Result<(), String>) -> (a: IpcResult<()>)
    ensures
        answers(a, result, "BROWSER_TAB_SHOW_FAILED"@),
{
    answer(result, "BROWSER_TAB_SHOW_FAILED")
}

/// What is answered once a tab was hidden, or was not.
pub fn browser_tab_hide(result: Result<(), String>) -> (a: IpcResult<()>)
    ensures
        answers(a, result, "BROWSER_TAB_HIDE_FAILED"@),
{
    answer(result, "BROWSER_TAB_HIDE_FAILED")
}

/// What is answered once a tab was closed, or was not.
pub fn browser_tab_destroy(result: Result<(), String>) -> (a: IpcResult<()>)
    ensures
        answers(a, result, "BROWSER_TAB_DESTROY_FAILED"@),
{
    answer(result, "BROWSER_TAB_DESTROY_FAILED")
}

/// What is answered once a tab went back to the page before, or was not.
pub fn browser_tab_go_back(result: Result<(), String>) -> (a: IpcResult<()>)
    ensures
        answers(a, result, "BROWSER_TAB_GO_BACK_FAILED"@),
{
    answer(result, "BROWSER_TAB_GO_BACK_FAILED")
}

/// What is answered once a tab went on to the next page, or was not.
pub fn browser_tab_go_forward(result: Result<(), String>) -> (a: IpcResult<()>)
    ensures
        answers(a, result, "BROWSER_TAB_GO_FORWARD_FAILED"@),
{
    answer(result, "BROWSER_TAB_GO_FORWARD_FAILED")
}

/// What is answered once a tab was loaded again, or was not.
pub fn browser_tab_reload(result: Result<(), String>) -> (a: IpcResult<()>)
    ensures
        answers(a, result, "BROWSER_TAB_RELOAD_FAILED"@),
{
    answer(result, "BROWSER_TAB_RELOAD_FAILED")
}

/// What is answered once a page was made ready for annotations, or was not.
pub fn browser_tab_inject_annotation(result: Result<(), String>) -> (a: IpcResult<()>)
    ensures
        answers(a, result, "BROWSER_TAB_INJECT_ANNOTATION_FAILED"@),
{
    answer(result, "BROWSER_TAB_INJECT_ANNOTATION_FAILED")
}

/// What is answered once annotations were taken off a page, or was not.
pub fn browser_tab_remove_annotation_overlay(result: Result<(), String>) -> (a: IpcResult<()>)
    ensures
        answers(a, result, "BROWSER_TAB_REMOVE_ANNOTATION_OVERLAY_FAILED"@),
{
    answer(result, "BROWSER_TAB_REMOVE_ANNOTATION_OVERLAY_FAILED")
}

/// What is answered once the markers of annotations were put on a page, or was not.
pub fn browser_tab_inject_annotation_markers(result: Result<(), String>) -> (a: IpcResult<()>)
    ensures
        answers(a, result, "BROWSER_TAB_INJECT_ANNOTATION_MARKERS_FAILED"@),
{
    answer(result, "BROWSER_TAB_INJECT_ANNOTATION_MARKERS_FAILED")
}

/// What is answered once another marker was selected, or was not.
pub fn browser_tab_update_annotation_marker_selection(result: Result<(), String>) -> (a: IpcResult<()>)
    ensures
        answers(a, result, "BROWSER_TAB_UPDATE_MARKER_SELECTION_FAILED"@),
{
    answer(result, "BROWSER_TAB_UPDATE_MARKER_SELECTION_FAILED")
}

// ---------------------------------------------------------------------------------------------
// Reports
// ---------------------------------------------------------------------------------------------

/// What is said to a tab that reports on another one.
pub open spec fn rejection(what: Seq<char>, caller: Seq<char>, tab: Seq<char>) -> Seq<char> {
    "Browser tab report "@ + what + " rejected: caller '"@ + caller + "' does not match payload '"@
        + tab + "'"@
}

/// A report of a tab is taken up if it is about the tab itself.
pub open spec fn checks<T>(
    result: Result<T, String>,
    what: Seq<char>,
    caller: Seq<char>,
    tab: Seq<char>,
) -> bool {
    if caller == tab {
        result is Ok
    } else {
        result is Err && result->Err_0@ == rejection(what, caller, tab)
    }
}

fn check_caller(what: &str, caller: &str, tab_id: &str) -> (result: Result<(), String>)
    ensures
        checks(result, what@, caller@, tab_id@),
{
    if same_text(caller, tab_id) {
        return Ok(());
    }
    let front = concat5(
        "Browser tab report ",
        what,
        " rejected: caller '",
        caller,
        "' does not match payload '",
    );
    Err(concat3(front.as_str(), tab_id, "'"))
}

/// What the frontend is told of a tab.
#[derive(Debug, Clone)]
pub enum TabEvent {
    Navigated { browser_tab_id: String, url: String },
    Loaded { browser_tab_id: String },
    TitleChanged { browser_tab_id: String, title: String },
    MarkerClicked { browser_tab_id: String, annotation_id: String },
}

/// A report that was taken up.
#[derive(Debug, Clone)]
pub struct TabReport {
    pub event: TabEvent,
    /// The page is another one: what was put on it for annotations is gone.
    pub invalidates_annotations: bool,
}

impl TabEvent {
    /// The name under which the frontend is told.
    pub fn name(&self) -> (name: &'static str)
        ensures
            name@ == match *self {
                TabEvent::Navigated { .. } => "browser-tab-navigated"@,
                TabEvent::Loaded { .. } => "browser-tab-loaded"@,
                TabEvent::TitleChanged { .. } => "browser-tab-title-changed"@,
                TabEvent::MarkerClicked { .. } => "browser-tab-annotation-marker-clicked"@,
            },
    {
        match self {
            TabEvent::Navigated { .. } => "browser-tab-navigated",
            TabEvent::Loaded { .. } => "browser-tab-loaded",
            TabEvent::TitleChanged { .. } => "browser-tab-title-changed",
            TabEvent::MarkerClicked { .. } => "browser-tab-annotation-marker-clicked",
        }
    }
}

/// A tab reports that it went to another page.
pub fn browser_tab_report_url(tab_id: String, url: String, caller: &str) -> (result: Result<
    TabReport,
    String,
>)
    ensures
        checks(result, "URL"@, caller@, tab_id@),
        result is Ok ==> {
            &&& result->Ok_0.event == (TabEvent::Navigated { browser_tab_id: tab_id, url })
            &&& result->Ok_0.invalidates_annotations
        },
{
    match check_caller("URL", caller, tab_id.as_str()) {
        Ok(()) => Ok(
            TabReport {
                event: TabEvent::Navigated { browser_tab_id: tab_id, url },
                invalidates_annotations: true,
            },
        ),
        Err(e) => Err(e),
    }
}

/// A tab reports that its page was loaded.
pub fn browser_tab_report_loaded(tab_id: String, caller: &str) -> (result: Result<
    TabReport,
    String,
>)
    ensures
        checks(result, "loaded"@, caller@, tab_id@),
        result is Ok ==> {
            &&& result->Ok_0.event == (TabEvent::Loaded { browser_tab_id: tab_id })
            &&& result->Ok_0.invalidates_annotations
        },
{
    match check_caller("loaded", caller, tab_id.as_str()) {
        Ok(()) => Ok(
            TabReport {
                event: TabEvent::Loaded { browser_tab_id: tab_id },
                invalidates_annotations: true,
            },
        ),
        Err(e) => Err(e),
    }
}

/// A tab reports that its page has another title.
pub fn browser_tab_report_title(tab_id: String, title: String, caller: &str) -> (result: Result<
    TabReport,
    String,
>)
    ensures
        checks(result, "title"@, caller@, tab_id@),
        result is Ok ==> {
            &&& result->Ok_0.event == (TabEvent::TitleChanged { browser_tab_id: tab_id, title })
            &&& !result->Ok_0.invalidates_annotations
        },
{
    match check_caller("title", caller, tab_id.as_str()) {
        Ok(()) => Ok(
            TabReport {
                event: TabEvent::TitleChanged { browser_tab_id: tab_id, title },
                invalidates_annotations: false,
            },
        ),
        Err(e) => Err(e),
    }
}

/// A tab reports that a marker on its page was clicked.
pub fn browser_tab_report_annotation_marker_clicked(
    tab_id: String,
    annotation_id: String,
    caller: &str,
) -> (result: Result<TabReport, String>)
    ensures
        checks(result, "annotation marker clicked"@, caller@, tab_id@),
        result is Ok ==> {
            &&& result->Ok_0.event == (TabEvent::MarkerClicked {
                browser_tab_id: tab_id,
                annotation_id,
            })
            &&& !result->Ok_0.invalidates_annotations
        },
{
    match check_caller("annotation marker clicked", caller, tab_id.as_str()) {
        Ok(()) => Ok(
            TabReport {
                event: TabEvent::MarkerClicked { browser_tab_id: tab_id, annotation_id },
                invalidates_annotations: false,
            },
        ),
        Err(e) => Err(e),
    }
}

/// A tab reports that a region of its page was captured. Is the report taken up?
pub fn browser_tab_report_region_captured(tab_id: &str, caller: &str) -> (result: Result<
    (),
    String,
>)
    ensures
        checks(result, "region captured"@, caller@, tab_id@),
{
    check_caller("region captured", caller, tab_id)
}

/// A tab reports that an element of its page was captured. Is the report taken up? The attributes
/// of the element must be an object.
pub fn browser_tab_report_element_captured(tab_id: &str, caller: &str, attributes: &JsonField) -> (
result: Result<(), String>)
    ensures
        if caller@ != tab_id@ {
            result is Err && result->Err_0@ == rejection("element captured"@, caller@, tab_id@)
        } else if *attributes is Object {
            result is Ok
        } else {
            &&& result is Err
            &&& result->Err_0@
                == "Browser tab report element captured rejected: attributes must be an object"@
        },
{
    match check_caller("element captured", caller, tab_id) {
        Err(e) => Err(e),
        Ok(()) => match attributes {
            JsonField::Object => Ok(()),
            _ => Err(
                "Browser tab report element captured rejected: attributes must be an object".to_owned(),
            ),
        },
    }
}

}
