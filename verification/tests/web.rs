use download::config::Config;
use download::download::{dlp_release_url, download_args, ffmpeg_release, processing_line};
use download::form::{field_text, form_has};
use download::html::{
    html_escape, options, render_library_page, render_queue_with_progress, render_settings_page,
};
use download::progress::{scan_log, tail_window, LogEvent, ProgressTracker, ProgressUpdate};
use download::server::{
    empty_path_note, error_note, format_choice, missing_path_note, page_kind, run_decision,
    saved_note, status_pill, PageKind, RunDecision,
};
use download::text::{decimal_string, replace_all, trim};

fn config() -> Config {
    Config {
        download_dest: "./downloads".to_string(),
        video_format: "mp4".to_string(),
        audio_export: false,
        audio_format: "mp3".to_string(),
        thumbnail_export: false,
        videos: vec![],
    }
}

#[test]
fn html_escape_rewrites_markup() {
    assert_eq!(html_escape("a & b < c > d \"e\""), "a &amp; b &lt; c &gt; d &quot;e&quot;");
    assert_eq!(html_escape("plain text ✕"), "plain text ✕");
    assert_eq!(html_escape(""), "");
    assert_eq!(html_escape("&amp;"), "&amp;amp;");
}

#[test]
fn html_escape_output_has_no_markup() {
    let out = html_escape("<script>alert(\"x\")</script>");
    assert!(!out.contains('<') && !out.contains('>') && !out.contains('"'));
}

#[test]
fn options_marks_current_format() {
    assert_eq!(
        options(&["avi", "mp4"], "mp4"),
        "<option value=\"avi\">avi</option><option value=\"mp4\" selected>mp4</option>"
    );
    assert_eq!(options(&[], "mp4"), "");
    assert_eq!(options(&["a"], "b"), "<option value=\"a\">a</option>");
}

#[test]
fn queue_empty() {
    let html = render_queue_with_progress(&vec![], &vec![], &vec![]);
    assert_eq!(
        html,
        "<div class=\"queue-meta\">0 videos queued</div><div class=\"queue-empty\">Queue is empty — paste a URL above to get started.</div>"
    );
}

#[test]
fn queue_with_items() {
    let html = render_queue_with_progress(
        &vec!["https://a.test/?x=1&y=2".to_string()],
        &vec!["42.5".to_string()],
        &vec!["43".to_string()],
    );
    let expected = "<div class=\"queue-meta\">1 video queued</div><ul class=\"queue-list\"><li class=\"queue-item\">\n<span class=\"queue-url\" title=\"https://a.test/?x=1&amp;y=2\">https://a.test/?x=1&amp;y=2</span>\n<button class=\"item-remove\" hx-delete=\"/api/queue/0\" hx-target=\"#queue-wrap\" hx-swap=\"innerHTML\" title=\"Remove\">✕</button>\n<div class=\"queue-progress\"><div class=\"queue-progress-fill\" style=\"width:42.5%\"></div><span class=\"queue-progress-label\">43%</span></div></li>\n</ul>";
    assert_eq!(html, expected);
    let two = render_queue_with_progress(
        &vec!["u".to_string(), "v".to_string()],
        &vec!["0".to_string(), "100".to_string()],
        &vec!["0".to_string(), "100".to_string()],
    );
    assert!(two.starts_with("<div class=\"queue-meta\">2 videos queued</div>"));
    assert!(two.contains("hx-delete=\"/api/queue/1\""));
}

#[test]
fn library_page_fills_destination() {
    assert_eq!(
        render_library_page("<input value=\"{{DEST_VALUE}}\">{{DEST_VALUE}}", "a<b"),
        "<input value=\"a&lt;b\">a&lt;b"
    );
}

#[test]
fn settings_page_fills_placeholders() {
    let mut c = config();
    c.audio_export = true;
    let page = render_settings_page("[{{AUDIO_CHECKED}}|{{THUMB_CHECKED}}]{{VIDEO_OPTIONS}}", &c);
    assert!(page.starts_with("[checked|]<option value=\"avi\">avi</option>"));
    assert!(page.contains("<option value=\"mp4\" selected>mp4</option>"));
    let audio = render_settings_page("{{AUDIO_OPTIONS}}", &c);
    assert!(audio.contains("<option value=\"mp3\" selected>mp3</option>"));
    assert!(audio.ends_with("<option value=\"wav\">wav</option>"));
}

#[test]
fn form_has_reads_checkbox() {
    assert!(form_has(b"audio_export=on", "audio_export"));
    assert!(form_has(b"a=1&audio%5Fexport=on", "audio_export"));
    assert!(!form_has(b"", "audio_export"));
    assert!(!form_has(b"thumbnail_export=on", "audio_export"));
}

#[test]
fn field_text_trims() {
    assert_eq!(field_text(Some("  https://a.test \n")), Some("https://a.test".to_string()));
    assert_eq!(field_text(Some(" \t ")), None);
    assert_eq!(field_text(None), None);
}

#[test]
fn trim_uses_unicode_white_space() {
    assert_eq!(trim("\u{3000}\u{a0} x y \u{2028}"), "x y");
    assert_eq!(trim("\u{200b}x"), "\u{200b}x");
    assert_eq!(trim(""), "");
}

#[test]
fn replace_all_left_to_right() {
    assert_eq!(replace_all("aaa", "aa", "b"), "ba");
    assert_eq!(replace_all("xyz", "q", "b"), "xyz");
    assert_eq!(replace_all("{{A}}{{A}}", "{{A}}", ""), "");
}

#[test]
fn decimal_string_formats() {
    assert_eq!(decimal_string(0), "0");
    assert_eq!(decimal_string(7), "7");
    assert_eq!(decimal_string(1024), "1024");
}

#[test]
fn scan_log_splits_lines_and_reads_progress() {
    let chunk = "Processing URL: https://a.test \n[download]  12.5% of 3MiB\r[download]  50.0% of 3MiB\r\n[download] Destination: a.mp4\nplain <b>\n";
    let scan = scan_log(chunk);
    assert_eq!(
        scan.lines,
        vec![
            "Processing URL: https://a.test ".to_string(),
            "[download]  12.5% of 3MiB\r[download]  50.0% of 3MiB".to_string(),
            "[download] Destination: a.mp4".to_string(),
            "plain &lt;b&gt;".to_string(),
        ]
    );
    assert_eq!(
        scan.events,
        vec![
            LogEvent::Started("https://a.test".to_string()),
            LogEvent::Percent("12.5".to_string()),
            LogEvent::Percent("50.0".to_string()),
            LogEvent::Other,
            LogEvent::Other,
        ]
    );
}

#[test]
fn scan_log_destination_and_edge_lines() {
    let scan = scan_log("Destination: x\n\n  \r \nlast\r");
    assert_eq!(scan.lines, vec!["Destination: x".to_string(), "".to_string(), "  \r ".to_string(), "last\r".to_string()]);
    assert_eq!(scan.events, vec![LogEvent::Finished, LogEvent::Other]);
    assert!(scan_log("").lines.is_empty());
    assert_eq!(scan_log("[download] 100%").events, vec![LogEvent::Percent("100".to_string())]);
    assert_eq!(scan_log("[download] %").events, vec![LogEvent::Percent("[download]".to_string())]);
    assert_eq!(scan_log("[download] done").events, vec![LogEvent::Other]);
    assert_eq!(scan_log(" % [download]").events, vec![LogEvent::Other]);
}

#[test]
fn tracker_follows_urls() {
    let mut t = ProgressTracker::new();
    assert!(t.observe(&LogEvent::Percent("5".to_string())).is_empty());
    assert_eq!(
        t.observe(&LogEvent::Started("a".to_string())),
        vec![ProgressUpdate::Begin("a".to_string())]
    );
    assert_eq!(
        t.observe(&LogEvent::Percent("5".to_string())),
        vec![ProgressUpdate::Report("a".to_string(), "5".to_string())]
    );
    assert_eq!(
        t.observe(&LogEvent::Started("b".to_string())),
        vec![ProgressUpdate::Complete("a".to_string()), ProgressUpdate::Begin("b".to_string())]
    );
    assert_eq!(t.observe(&LogEvent::Finished), vec![ProgressUpdate::Complete("b".to_string())]);
    assert_eq!(t.current_url, Some("b".to_string()));
    t.reset();
    assert!(t.observe(&LogEvent::Finished).is_empty());
    assert!(t.observe(&LogEvent::Other).is_empty());
}

#[test]
fn tail_window_cases() {
    assert_eq!(tail_window(0, 0), (0, None));
    assert_eq!(tail_window(0, 10), (10, Some(0)));
    assert_eq!(tail_window(10, 10), (10, None));
    assert_eq!(tail_window(10, 15), (15, Some(10)));
    assert_eq!(tail_window(10, 4), (4, Some(0)));
    assert_eq!(tail_window(10, 0), (0, None));
}

#[test]
fn download_args_for_video() {
    let c = config();
    assert_eq!(
        download_args(&c, None, "libs"),
        vec!["--no-part", "--force-overwrites", "-P", "./downloads", "--ffmpeg-location", "libs", "-t", "mp4"]
    );
}

#[test]
fn download_args_for_audio_with_deno_and_thumbnails() {
    let mut c = config();
    c.audio_export = true;
    c.thumbnail_export = true;
    assert_eq!(
        download_args(&c, Some("libs/deno"), "libs"),
        vec![
            "--no-part",
            "--force-overwrites",
            "--js-runtimes",
            "deno:libs/deno",
            "-P",
            "./downloads",
            "--ffmpeg-location",
            "libs",
            "-x",
            "--audio-format",
            "mp3",
            "--write-thumbnail"
        ]
    );
}

#[test]
fn processing_line_text() {
    assert_eq!(processing_line("https://a.test"), "Processing URL: https://a.test\n");
}

#[test]
fn release_urls() {
    assert_eq!(
        dlp_release_url("linux"),
        Some("https://github.com/yt-dlp/yt-dlp/releases/download/2026.03.17/yt-dlp_linux")
    );
    assert_eq!(
        dlp_release_url("windows"),
        Some("https://github.com/yt-dlp/yt-dlp/releases/download/2026.03.17/yt-dlp.exe")
    );
    assert_eq!(
        dlp_release_url("macos"),
        Some("https://github.com/yt-dlp/yt-dlp/releases/latest/download/yt-dlp_macos")
    );
    assert_eq!(dlp_release_url("freebsd"), None);
    assert_eq!(ffmpeg_release(true).binary, "ffmpeg.exe");
    assert_eq!(ffmpeg_release(false).archive, "ffmpeg.tar.xz");
    assert_eq!(ffmpeg_release(false).folder, "libs/ffmpeg-master-latest-linux64-gpl");
}

#[test]
fn page_kinds() {
    assert_eq!(page_kind("library"), PageKind::Library);
    assert_eq!(page_kind("settings"), PageKind::Settings);
    assert_eq!(page_kind("logs"), PageKind::Logs);
    assert_eq!(page_kind("help"), PageKind::Help);
    assert_eq!(page_kind("Help"), PageKind::Unknown);
}

#[test]
fn status_and_run() {
    assert_eq!(status_pill(false), "<span class=\"status-pill\"><span class=\"dot\"></span>idle</span>");
    assert!(status_pill(true).contains("running"));
    assert_eq!(run_decision(true, false), RunDecision::AlreadyRunning);
    assert_eq!(run_decision(false, false), RunDecision::MissingBinary);
    assert_eq!(run_decision(false, true), RunDecision::Launch);
}

#[test]
fn format_choice_checks_list() {
    assert_eq!(format_choice(Some("mkv"), &["mkv", "mp4"]), Some("mkv".to_string()));
    assert_eq!(format_choice(Some("exe"), &["mkv", "mp4"]), None);
    assert_eq!(format_choice(None, &["mkv"]), None);
}

#[test]
fn destination_notes() {
    assert_eq!(empty_path_note(), "<span class=\"note-error\">✕ path cannot be empty</span>");
    assert_eq!(missing_path_note("a&b"), "<span class=\"note-error\">✕ path does not exist: a&amp;b</span>");
    assert_eq!(saved_note(), "<span class=\"note-ok\">✓ saved</span>");
    assert_eq!(error_note("bad \"x\""), "<span class=\"note-error\">✕ bad &quot;x&quot;</span>");
}

const SAMPLES: [&str; 10] = [
    "",
    "\n",
    "a\r\nb\n\nc\r",
    "  x  \r\n\r\n",
    "\r\r\n\n\r",
    "[download]  3.1% of ~ 10MiB at 1MiB/s\r[download]  7.0%",
    "Processing URL: \u{3000}u \u{85}",
    "tab\tand\u{2003}em space\u{200b}",
    "x&y<z>\"q\"",
    "no newline at end",
];

#[test]
fn scan_log_lines_agree_with_str_lines() {
    for s in SAMPLES.iter() {
        let expected: Vec<String> = s.lines().map(|l| l.replace('&', "&amp;").replace('<', "&lt;").replace('>', "&gt;").replace('"', "&quot;")).collect();
        assert_eq!(scan_log(s).lines, expected, "chunk {:?}", s);
    }
}

#[test]
fn trim_agrees_with_str_trim() {
    for s in SAMPLES.iter() {
        assert_eq!(trim(s), s.trim(), "text {:?}", s);
    }
}

#[test]
fn replace_all_agrees_with_str_replace() {
    for s in SAMPLES.iter() {
        assert_eq!(replace_all(s, "\r", "<cr>"), s.replace("\r", "<cr>"));
        assert_eq!(replace_all(s, "a", ""), s.replace("a", ""));
    }
    assert_eq!(replace_all("abababa", "aba", "X"), "abababa".replace("aba", "X"));
}

#[test]
fn decimal_string_agrees_with_to_string() {
    for n in [0usize, 9, 10, 99, 100, 12345, usize::MAX] {
        assert_eq!(decimal_string(n), n.to_string());
    }
}

#[test]
fn percent_word_agrees_with_split_whitespace() {
    for s in ["[download] 42.0% done", "[download]\u{2003}5%", "[download]  x 9.9 %", "[download]100%"] {
        let pos = s.rfind('%').unwrap();
        let word = s[..pos].split_whitespace().next_back().map(|w| w.to_string());
        let events = scan_log(s).events;
        match word {
            Some(w) => assert_eq!(events, vec![LogEvent::Percent(w)]),
            None => assert_eq!(events, vec![LogEvent::Other]),
        }
    }
}

#[test]
fn html_escape_can_be_undone() {
    for s in SAMPLES.iter().chain(["&quot; &amp;lt; <&>\"", "&&&;", "&gt"].iter()) {
        let out = html_escape(s);
        let back = out.replace("&quot;", "\"").replace("&gt;", ">").replace("&lt;", "<").replace("&amp;", "&");
        assert_eq!(&back, s);
        for (i, c) in out.char_indices() {
            if c == '&' {
                let rest = &out[i..];
                assert!(["&amp;", "&lt;", "&gt;", "&quot;"].iter().any(|e| rest.starts_with(e)));
            }
        }
    }
}

#[test]
fn options_of_joined_lists() {
    let joined = options(&["avi", "mp4", "webm"], "mp4");
    assert_eq!(joined, format!("{}{}", options(&["avi"], "mp4"), options(&["mp4", "webm"], "mp4")));
}
