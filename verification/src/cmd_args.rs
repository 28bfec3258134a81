//! Command-line flags and what each one does to the configuration.
use vstd::prelude::*;
use crate::config::{
    Config, ConfigView, audio_formats, binary_search_result, found_index, is_allowed,
    spec_audio_formats, spec_video_formats, video_formats,
};
use crate::html::str_views;
use crate::text::str_eq;

verus! {

/// The flags the command line understands.
#[derive(PartialEq, Eq, Structural, Debug, Clone, Copy)]
pub enum CmdArgs {
    Add,
    Remove,
    ExportAudio,
    VideoFormat,
    AudioFormat,
    DownloadDest,
    Execute,
    Unknown,
}

/// The flag that `arg` names.
pub open spec fn spec_from_arg(arg: Seq<char>) -> CmdArgs {
    if arg == "-a"@ {
        CmdArgs::Add
    } else if arg == "-r"@ {
        CmdArgs::Remove
    } else if arg == "-A"@ {
        CmdArgs::ExportAudio
    } else if arg == "-f"@ {
        CmdArgs::VideoFormat
    } else if arg == "-F"@ {
        CmdArgs::AudioFormat
    } else if arg == "-d"@ {
        CmdArgs::DownloadDest
    } else if arg == "-e"@ {
        CmdArgs::Execute
    } else {
        CmdArgs::Unknown
    }
}

/// A change to the stored configuration that a flag asks for.
#[derive(Debug, PartialEq, Eq)]
pub enum Edit {
    AddVideo(String),
    RemoveVideo(String),
    ToggleAudioExport,
    SetVideoFormat(String),
    SetAudioFormat(String),
    SetDownloadDest(String),
}

/// What running a flag amounts to.
#[derive(Debug, PartialEq, Eq)]
pub enum Action {
    /// The argument is no flag: nothing happens.
    Nothing,
    /// Download every queued video.
    Download,
    /// Print the message and go on.
    Notice(String),
    /// Stop the program with the message.
    Abort(String),
    /// Load the configuration, apply the edit and save it.
    Change(Edit),
}

/// Why an edit could not be applied.
#[derive(Debug, PartialEq, Eq)]
pub enum EditError {
    /// The run ends with this error message.
    Fail(String),
    /// The program stops with this message.
    Abort(String),
}

/// The argument that follows position `arg_num`, if there is one.
pub open spec fn next_arg(args: Seq<Seq<char>>, arg_num: int) -> Option<Seq<char>> {
    if 0 <= arg_num + 1 < args.len() {
        Some(args[arg_num + 1])
    } else {
        None
    }
}

/// Whether `a` is the action that flag `cmd` stands for, given the
/// argument `next` that follows it.
pub open spec fn is_action_for(cmd: CmdArgs, next: Option<Seq<char>>, a: Action) -> bool {
    match cmd {
        CmdArgs::Add => match next {
            Some(u) => a matches Action::Change(Edit::AddVideo(x)) && x@ == u,
            None => a matches Action::Notice(m) && m@ == "No URL input with -a"@,
        },
        CmdArgs::Remove => match next {
            Some(u) => a matches Action::Change(Edit::RemoveVideo(x)) && x@ == u,
            None => a matches Action::Notice(m) && m@ == "No URL input with -a"@,
        },
        CmdArgs::ExportAudio => a matches Action::Change(Edit::ToggleAudioExport),
        CmdArgs::VideoFormat => match next {
            Some(f) => a matches Action::Change(Edit::SetVideoFormat(x)) && x@ == f,
            None => a matches Action::Abort(m) && m@ == "No format input with -f"@,
        },
        CmdArgs::AudioFormat => match next {
            Some(f) => a matches Action::Change(Edit::SetAudioFormat(x)) && x@ == f,
            None => a matches Action::Abort(m) && m@ == "No format input with -F"@,
        },
        CmdArgs::DownloadDest => match next {
            Some(d) => a matches Action::Change(Edit::SetDownloadDest(x)) && x@ == d,
            None => a matches Action::Abort(m) && m@ == "No download destination input with -d"@,
        },
        CmdArgs::Execute => a matches Action::Download,
        CmdArgs::Unknown => a matches Action::Nothing,
    }
}

impl CmdArgs {
    /// The flag that `arg` names: `-a`, `-r`, `-A`, `-f`, `-F`, `-d` or
    /// `-e`; anything else is `CmdArgs::Unknown`.
    pub fn from_arg(arg: &str) -> (r: Self)
        ensures
            r == spec_from_arg(arg@),
    {
        if str_eq(arg, "-a") {
            CmdArgs::Add
        } else if str_eq(arg, "-r") {
            CmdArgs::Remove
        } else if str_eq(arg, "-A") {
            CmdArgs::ExportAudio
        } else if str_eq(arg, "-f") {
            CmdArgs::VideoFormat
        } else if str_eq(arg, "-F") {
            CmdArgs::AudioFormat
        } else if str_eq(arg, "-d") {
            CmdArgs::DownloadDest
        } else if str_eq(arg, "-e") {
            CmdArgs::Execute
        } else {
            CmdArgs::Unknown
        }
    }

    /// What this flag, standing at position `arg_num` of `args`, asks for.
    /// The argument after it, if any, is its value.
    pub fn action(&self, args: &Vec<String>, arg_num: usize) -> (r: Action)
        ensures
            is_action_for(*self, next_arg(args.deep_view(), arg_num as int), r),
    {
        let next: Option<String> = if arg_num < args.len() && arg_num + 1 < args.len() {
            Some(args[arg_num + 1].clone())
        } else {
            None
        };
        match self {
            CmdArgs::Add => match next {
                Some(u) => Action::Change(Edit::AddVideo(u)),
                None => Action::Notice("No URL input with -a".to_string()),
            },
            CmdArgs::Remove => match next {
                Some(u) => Action::Change(Edit::RemoveVideo(u)),
                None => Action::Notice("No URL input with -a".to_string()),
            },
            CmdArgs::ExportAudio => Action::Change(Edit::ToggleAudioExport),
            CmdArgs::VideoFormat => match next {
                Some(f) => Action::Change(Edit::SetVideoFormat(f)),
                None => Action::Abort("No format input with -f".to_string()),
            },
            CmdArgs::AudioFormat => match next {
                Some(f) => Action::Change(Edit::SetAudioFormat(f)),
                None => Action::Abort("No format input with -F".to_string()),
            },
            CmdArgs::DownloadDest => match next {
                Some(d) => Action::Change(Edit::SetDownloadDest(d)),
                None => Action::Abort("No download destination input with -d".to_string()),
            },
            CmdArgs::Execute => Action::Download,
            CmdArgs::Unknown => Action::Nothing,
        }
    }
}


/// `s` in double quotes.
pub open spec fn quoted(s: Seq<char>) -> Seq<char> {
    seq!['"'] + s + seq!['"']
}

/// The quoted items, separated by `, `.
pub open spec fn quoted_items(items: Seq<Seq<char>>) -> Seq<char>
    decreases items.len(),
{
    if items.len() == 0 {
        seq![]
    } else if items.len() == 1 {
        quoted(items[0])
    } else {
        quoted_items(items.drop_last()) + seq![',', ' '] + quoted(items.last())
    }
}

/// A list of strings in brackets, as `{:?}` writes one whose strings hold
/// no character that needs an escape.
pub open spec fn debug_list(items: Seq<Seq<char>>) -> Seq<char> {
    seq!['['] + quoted_items(items) + seq![']']
}

/// `items` written as a bracketed list of quoted strings.
pub fn format_list(items: &[&str]) -> (r: String)
    ensures
        r@ == debug_list(str_views(items@)),
{
    let mut out = String::new();
    crate::text::push_char(&mut out, '[');
    let ghost start = out@;
    let mut i: usize = 0;
    while i < items.len()
        invariant
            i <= items@.len(),
            start == seq!['['],
            out@ == start + quoted_items(str_views(items@.take(i as int))),
        decreases items@.len() - i,
    {
        let ghost before = out@;
        proof {
            assert(str_views(items@.take(i + 1)).drop_last() == str_views(items@.take(i as int)));
            assert(str_views(items@.take(i + 1)).last() == items@[i as int]@);
        }
        if i > 0 {
            crate::text::push_char(&mut out, ',');
            crate::text::push_char(&mut out, ' ');
        }
        crate::text::push_char(&mut out, '"');
        out.append(items[i]);
        crate::text::push_char(&mut out, '"');
        proof {
            if i == 0 {
                assert(str_views(items@.take(1)) == seq![items@[0]@]);
                assert(out@ == start + quoted_items(str_views(items@.take(1))));
            } else {
                assert(out@ == start + quoted_items(str_views(items@.take(i as int))) + seq![',', ' '] + quoted(items@[i as int]@));
            }
        }
        i = i + 1;
    }
    crate::text::push_char(&mut out, ']');
    proof {
        assert(items@.take(items@.len() as int) == items@);
    }
    out
}

/// The error message for a URL that is not in the queue.
pub open spec fn missing_url_message(url: Seq<char>) -> Seq<char> {
    "Cannot find URL specified: "@ + url
}

/// The message for a format outside the list `allowed`.
pub open spec fn bad_format_message(allowed: Seq<Seq<char>>) -> Seq<char> {
    "Please choose from the available formats: "@ + debug_list(allowed)
}

/// The message for a download destination that does not exist.
pub open spec fn missing_dest_message(dest: Seq<char>) -> Seq<char> {
    "The file path "@ + dest + " does not exist."@
}

/// Whether `r` and the configuration going from `before` to `after` are
/// what applying `edit` gives; `dest_exists` says whether the path of a new
/// download destination exists.
pub open spec fn edit_outcome(
    before: ConfigView,
    edit: Edit,
    dest_exists: bool,
    after: ConfigView,
    r: Result<(), EditError>,
) -> bool {
    match edit {
        Edit::AddVideo(u) => r is Ok && after == (ConfigView { videos: before.videos.push(u@), ..before }),
        Edit::RemoveVideo(u) => {
            &&& (crate::config::sorted_by_bytes(before.videos) && before.videos.contains(u@)
                ==> found_index(before.videos, u@, binary_search_result(before.videos, u@)) is Some)
            &&& match found_index(before.videos, u@, binary_search_result(before.videos, u@)) {
                Some(i) => r is Ok && after == (ConfigView { videos: before.videos.remove(i), ..before }),
                None => r matches Err(EditError::Fail(m)) && m@ == missing_url_message(u@) && after == before,
            }
        },
        Edit::ToggleAudioExport => r is Ok && after == (ConfigView { audio_export: !before.audio_export, ..before }),
        Edit::SetVideoFormat(f) => if spec_video_formats().contains(f@) {
            r is Ok && after == (ConfigView { video_format: f@, ..before })
        } else {
            r matches Err(EditError::Abort(m)) && m@ == bad_format_message(spec_video_formats()) && after == before
        },
        Edit::SetAudioFormat(f) => if spec_audio_formats().contains(f@) {
            r is Ok && after == (ConfigView { audio_format: f@, ..before })
        } else {
            r matches Err(EditError::Abort(m)) && m@ == bad_format_message(spec_audio_formats()) && after == before
        },
        Edit::SetDownloadDest(d) => if dest_exists {
            r is Ok && after == (ConfigView { download_dest: d@, ..before })
        } else {
            r matches Err(EditError::Abort(m)) && m@ == missing_dest_message(d@) && after == before
        },
    }
}

/// Applies `edit` to the loaded configuration. A URL to remove that the
/// search of the queue does not find fails the run; a format outside the
/// allowed list, or a destination whose path does not exist, stops it.
pub fn apply_edit(config: &mut Config, edit: Edit, dest_exists: bool) -> (r: Result<(), EditError>)
    ensures
        edit_outcome(old(config)@, edit, dest_exists, final(config)@, r),
{
    match edit {
        Edit::AddVideo(u) => {
            config.add_video(u);
            Ok(())
        },
        Edit::RemoveVideo(u) => {
            if config.remove_video(&u) {
                Ok(())
            } else {
                let mut m = "Cannot find URL specified: ".to_string();
                m.append(u.as_str());
                Err(EditError::Fail(m))
            }
        },
        Edit::ToggleAudioExport => {
            config.toggle_audio_export();
            Ok(())
        },
        Edit::SetVideoFormat(f) => {
            let allowed = video_formats();
            if is_allowed(allowed.as_slice(), f.as_str()) {
                config.video_format = f;
                Ok(())
            } else {
                let mut m = "Please choose from the available formats: ".to_string();
                let list = format_list(allowed.as_slice());
                m.append(list.as_str());
                Err(EditError::Abort(m))
            }
        },
        Edit::SetAudioFormat(f) => {
            let allowed = audio_formats();
            if is_allowed(allowed.as_slice(), f.as_str()) {
                config.audio_format = f;
                Ok(())
            } else {
                let mut m = "Please choose from the available formats: ".to_string();
                let list = format_list(allowed.as_slice());
                m.append(list.as_str());
                Err(EditError::Abort(m))
            }
        },
        Edit::SetDownloadDest(d) => {
            if dest_exists {
                config.download_dest = d;
                Ok(())
            } else {
                let mut m = "The file path ".to_string();
                m.append(d.as_str());
                m.append(" does not exist.");
                Err(EditError::Abort(m))
            }
        },
    }
}


/// Flipping audio extraction twice (`-A -A`) leaves the configuration as it
/// was.
pub proof fn lemma_toggle_audio_twice(c0: ConfigView, c1: ConfigView, c2: ConfigView, r1: Result<(), EditError>, r2: Result<(), EditError>, d1: bool, d2: bool)
    requires
        edit_outcome(c0, Edit::ToggleAudioExport, d1, c1, r1),
        edit_outcome(c1, Edit::ToggleAudioExport, d2, c2, r2),
    ensures
        c2 == c0,
{
}

/// Removing a URL that is not in the queue fails with its message and
/// leaves the configuration as it was.
pub proof fn lemma_remove_absent_url_fails(before: ConfigView, url: String, d: bool, after: ConfigView, r: Result<(), EditError>)
    requires
        !before.videos.contains(url@),
        edit_outcome(before, Edit::RemoveVideo(url), d, after, r),
    ensures
        after == before,
        r matches Err(EditError::Fail(m)) && m@ == missing_url_message(url@),
{
    let found = binary_search_result(before.videos, url@);
    match found {
        Ok(i) => {
            if i < before.videos.len() && before.videos[i as int] == url@ {
                assert(before.videos.contains(url@));
            }
        },
        Err(_) => {},
    }
}

/// Adding a URL and then removing the same URL succeeds when the queue is
/// sorted after the addition, and gives back a queue of the original
/// length with the other settings untouched.
pub proof fn lemma_add_then_remove(
    c0: ConfigView,
    url: String,
    url2: String,
    c1: ConfigView,
    c2: ConfigView,
    r1: Result<(), EditError>,
    r2: Result<(), EditError>,
    d1: bool,
    d2: bool,
)
    requires
        url2@ == url@,
        edit_outcome(c0, Edit::AddVideo(url), d1, c1, r1),
        sorted_by_bytes_after_add(c0.videos, url@),
        edit_outcome(c1, Edit::RemoveVideo(url2), d2, c2, r2),
    ensures
        r1 is Ok,
        r2 is Ok,
        c2.videos.len() == c0.videos.len(),
        c2 == (ConfigView { videos: c2.videos, ..c0 }),
{
    assert(c1.videos[c0.videos.len() as int] == url@);
    assert(c1.videos.contains(url@));
}

/// `-r <url>` never adds to the queue: the edit it asks for either leaves
/// the configuration as it was (and fails) or takes out exactly one entry
/// equal to the URL, keeping every other setting; on a sorted queue that
/// holds the URL it always takes one out.
pub proof fn lemma_remove_flag_removes(
    args: Seq<Seq<char>>,
    arg_num: int,
    url: Seq<char>,
    a: Action,
    before: ConfigView,
    d: bool,
    after: ConfigView,
    r: Result<(), EditError>,
)
    requires
        next_arg(args, arg_num) == Some(url),
        is_action_for(CmdArgs::Remove, next_arg(args, arg_num), a),
        edit_outcome(before, a->Change_0, d, after, r),
    ensures
        a is Change,
        after.videos.len() <= before.videos.len(),
        after == before || (exists|i: int|
            0 <= i < before.videos.len() && before.videos[i] == url && after == (ConfigView {
                videos: before.videos.remove(i),
                ..before
            })),
        r is Ok <==> after != before,
        crate::config::sorted_by_bytes(before.videos) && before.videos.contains(url) ==> r is Ok
            && after.videos.len() + 1 == before.videos.len(),
{
    let e = a->Change_0;
    let u = e->RemoveVideo_0;
    assert(u@ == url);
    match found_index(before.videos, url, binary_search_result(before.videos, url)) {
        Some(i) => {
            assert(before.videos[i] == url);
            assert(after.videos.len() + 1 == before.videos.len());
            assert(after.videos != before.videos);
        },
        None => {},
    }
}

/// `-a <url>` appends exactly that URL to the end of the queue and keeps
/// every other setting.
pub proof fn lemma_add_flag_appends(
    args: Seq<Seq<char>>,
    arg_num: int,
    url: Seq<char>,
    a: Action,
    before: ConfigView,
    d: bool,
    after: ConfigView,
    r: Result<(), EditError>,
)
    requires
        next_arg(args, arg_num) == Some(url),
        is_action_for(CmdArgs::Add, next_arg(args, arg_num), a),
        edit_outcome(before, a->Change_0, d, after, r),
    ensures
        a is Change,
        r is Ok,
        after.videos.len() == before.videos.len() + 1,
        after.videos.last() == url,
        after == (ConfigView { videos: before.videos.push(url), ..before }),
{
}

/// Whether the queue `videos` with `url` appended is sorted.
pub open spec fn sorted_by_bytes_after_add(videos: Seq<Seq<char>>, url: Seq<char>) -> bool {
    crate::config::sorted_by_bytes(videos.push(url))
}

} // verus!
