//! Decisions of the web interface's request handlers.
use vstd::prelude::*;
use crate::html::{escaped, html_escape, str_views};
use crate::text::str_eq;

verus! {

/// The page fragments the interface serves.
#[derive(PartialEq, Eq, Structural, Debug, Clone, Copy)]
pub enum PageKind {
    Library,
    Settings,
    Logs,
    Help,
    Unknown,
}

/// The page that the path segment `name` asks for.
pub open spec fn spec_page_kind(name: Seq<char>) -> PageKind {
    if name == "library"@ {
        PageKind::Library
    } else if name == "settings"@ {
        PageKind::Settings
    } else if name == "logs"@ {
        PageKind::Logs
    } else if name == "help"@ {
        PageKind::Help
    } else {
        PageKind::Unknown
    }
}

/// The page that the path segment `name` asks for; any other name is
/// answered with "not found".
pub fn page_kind(name: &str) -> (r: PageKind)
    ensures
        r == spec_page_kind(name@),
{
    if str_eq(name, "library") {
        PageKind::Library
    } else if str_eq(name, "settings") {
        PageKind::Settings
    } else if str_eq(name, "logs") {
        PageKind::Logs
    } else if str_eq(name, "help") {
        PageKind::Help
    } else {
        PageKind::Unknown
    }
}

/// The status badge: `running` while a download runs, `idle` otherwise.
pub fn status_pill(running: bool) -> (r: &'static str)
    ensures
        r@ == (if running {
            "<span class=\"status-pill status-live\"><span class=\"dot\"></span>running</span>"@
        } else {
            "<span class=\"status-pill\"><span class=\"dot\"></span>idle</span>"@
        }),
{
    if running {
        "<span class=\"status-pill status-live\"><span class=\"dot\"></span>running</span>"
    } else {
        "<span class=\"status-pill\"><span class=\"dot\"></span>idle</span>"
    }
}

/// What a press of the Run button does.
#[derive(PartialEq, Eq, Structural, Debug, Clone, Copy)]
pub enum RunDecision {
    /// A download is already running: nothing more happens.
    AlreadyRunning,
    /// The command-line program was not found next to the server.
    MissingBinary,
    /// Clear the progress and start the command-line program.
    Launch,
}

/// A running download is left alone; otherwise the program is started
/// when it was found.
pub fn run_decision(running: bool, binary_found: bool) -> (r: RunDecision)
    ensures
        r == (if running {
            RunDecision::AlreadyRunning
        } else if !binary_found {
            RunDecision::MissingBinary
        } else {
            RunDecision::Launch
        }),
{
    if running {
        RunDecision::AlreadyRunning
    } else if !binary_found {
        RunDecision::MissingBinary
    } else {
        RunDecision::Launch
    }
}

/// The format to store from a submitted picker: the submitted value when it
/// is one of `allowed`, otherwise `None` (the request is refused).
pub fn format_choice(value: Option<&str>, allowed: &[&str]) -> (r: Option<String>)
    ensures
        r.deep_view() == (match value.deep_view() {
            Some(v) => if str_views(allowed@).contains(v) {
                Some(v)
            } else {
                None
            },
            None => None,
        }),
{
    match value {
        Some(v) => {
            if crate::config::is_allowed(allowed, v) {
                Some(v.to_string())
            } else {
                None
            }
        },
        None => None,
    }
}

/// The note for an empty destination path.
pub fn empty_path_note() -> (r: String)
    ensures
        r@ == "<span class=\"note-error\">✕ path cannot be empty</span>"@,
{
    "<span class=\"note-error\">✕ path cannot be empty</span>".to_string()
}

/// The note for a destination path that does not exist.
pub fn missing_path_note(dest: &str) -> (r: String)
    ensures
        r@ == "<span class=\"note-error\">✕ path does not exist: "@ + escaped(dest@) + "</span>"@,
{
    let mut out = "<span class=\"note-error\">✕ path does not exist: ".to_string();
    let esc = html_escape(dest);
    out.append(esc.as_str());
    out.append("</span>");
    out
}

/// The note for a destination that was saved.
pub fn saved_note() -> (r: String)
    ensures
        r@ == "<span class=\"note-ok\">✓ saved</span>"@,
{
    "<span class=\"note-ok\">✓ saved</span>".to_string()
}

/// The note for a failure to load or save the configuration.
pub fn error_note(message: &str) -> (r: String)
    ensures
        r@ == "<span class=\"note-error\">✕ "@ + escaped(message@) + "</span>"@,
{
    let mut out = "<span class=\"note-error\">✕ ".to_string();
    let esc = html_escape(message);
    out.append(esc.as_str());
    out.append("</span>");
    out
}

} // verus!
