use download::cmd_args::{apply_edit, format_list, Action, CmdArgs, Edit, EditError};
use download::config::{audio_formats, is_allowed, remove_found, video_formats, Config};

fn sample_config() -> Config {
    Config {
        download_dest: "./downloads".to_string(),
        video_format: "mp4".to_string(),
        audio_export: false,
        audio_format: "mp3".to_string(),
        thumbnail_export: false,
        videos: vec![
            "https://www.youtube.com/watch?v=EwTZ2xpQwpA".to_string(),
            "https://www.youtube.com/watch?v=dQw4w9WgXcQ".to_string(),
        ],
    }
}

fn args(items: &[&str]) -> Vec<String> {
    items.iter().map(|s| s.to_string()).collect()
}

#[test]
fn from_arg_maps_every_flag() {
    assert_eq!(CmdArgs::from_arg("-a"), CmdArgs::Add);
    assert_eq!(CmdArgs::from_arg("-r"), CmdArgs::Remove);
    assert_eq!(CmdArgs::from_arg("-A"), CmdArgs::ExportAudio);
    assert_eq!(CmdArgs::from_arg("-f"), CmdArgs::VideoFormat);
    assert_eq!(CmdArgs::from_arg("-F"), CmdArgs::AudioFormat);
    assert_eq!(CmdArgs::from_arg("-d"), CmdArgs::DownloadDest);
    assert_eq!(CmdArgs::from_arg("-e"), CmdArgs::Execute);
}

#[test]
fn from_arg_other_text_is_unknown() {
    assert_eq!(CmdArgs::from_arg(""), CmdArgs::Unknown);
    assert_eq!(CmdArgs::from_arg("-x"), CmdArgs::Unknown);
    assert_eq!(CmdArgs::from_arg("-aa"), CmdArgs::Unknown);
    assert_eq!(CmdArgs::from_arg("https://example.com"), CmdArgs::Unknown);
    assert_eq!(CmdArgs::from_arg("download"), CmdArgs::Unknown);
}

#[test]
fn action_add_takes_next_argument() {
    let a = args(&["download", "-a", "https://x.test/v"]);
    let act = CmdArgs::Add.action(&a, 1);
    assert_eq!(act, Action::Change(Edit::AddVideo("https://x.test/v".to_string())));
}

#[test]
fn action_add_without_url_is_a_notice() {
    let a = args(&["download", "-a"]);
    assert_eq!(CmdArgs::Add.action(&a, 1), Action::Notice("No URL input with -a".to_string()));
    assert_eq!(CmdArgs::Remove.action(&a, 1), Action::Notice("No URL input with -a".to_string()));
}

#[test]
fn action_missing_values_abort() {
    let a = args(&["download", "-f"]);
    assert_eq!(CmdArgs::VideoFormat.action(&a, 1), Action::Abort("No format input with -f".to_string()));
    assert_eq!(CmdArgs::AudioFormat.action(&a, 1), Action::Abort("No format input with -F".to_string()));
    assert_eq!(
        CmdArgs::DownloadDest.action(&a, 1),
        Action::Abort("No download destination input with -d".to_string())
    );
}

#[test]
fn action_other_flags() {
    let a = args(&["download", "-A", "-e", "zzz"]);
    assert_eq!(CmdArgs::ExportAudio.action(&a, 1), Action::Change(Edit::ToggleAudioExport));
    assert_eq!(CmdArgs::Execute.action(&a, 2), Action::Download);
    assert_eq!(CmdArgs::Unknown.action(&a, 3), Action::Nothing);
    assert_eq!(
        CmdArgs::DownloadDest.action(&a, 2),
        Action::Change(Edit::SetDownloadDest("zzz".to_string()))
    );
}

#[test]
fn add_appends_to_queue() {
    let mut c = sample_config();
    let r = apply_edit(&mut c, Edit::AddVideo("https://z.test".to_string()), false);
    assert_eq!(r, Ok(()));
    assert_eq!(c.videos.len(), 3);
    assert_eq!(c.videos[2], "https://z.test");
    assert_eq!(c.download_dest, "./downloads");
}

#[test]
fn remove_found_url_from_sorted_queue() {
    let mut c = sample_config();
    let r = apply_edit(&mut c, Edit::RemoveVideo("https://www.youtube.com/watch?v=EwTZ2xpQwpA".to_string()), false);
    assert_eq!(r, Ok(()));
    assert_eq!(c.videos, vec!["https://www.youtube.com/watch?v=dQw4w9WgXcQ".to_string()]);
}

#[test]
fn remove_absent_url_fails() {
    let mut c = sample_config();
    let before = c.clone();
    let r = apply_edit(&mut c, Edit::RemoveVideo("https://nowhere.test".to_string()), false);
    assert_eq!(r, Err(EditError::Fail("Cannot find URL specified: https://nowhere.test".to_string())));
    assert_eq!(c, before);
}

#[test]
fn remove_found_checks_the_index() {
    let mut v = vec!["a".to_string(), "b".to_string()];
    assert!(!remove_found(&mut v, &"b".to_string(), Ok(0)));
    assert!(!remove_found(&mut v, &"b".to_string(), Ok(7)));
    assert!(!remove_found(&mut v, &"b".to_string(), Err(2)));
    assert_eq!(v.len(), 2);
    assert!(remove_found(&mut v, &"b".to_string(), Ok(1)));
    assert_eq!(v, vec!["a".to_string()]);
}

#[test]
fn toggle_audio_twice_restores() {
    let mut c = sample_config();
    let before = c.clone();
    assert_eq!(apply_edit(&mut c, Edit::ToggleAudioExport, false), Ok(()));
    assert!(c.audio_export);
    assert_eq!(apply_edit(&mut c, Edit::ToggleAudioExport, false), Ok(()));
    assert_eq!(c, before);
}

#[test]
fn video_format_must_be_listed() {
    let mut c = sample_config();
    assert_eq!(apply_edit(&mut c, Edit::SetVideoFormat("webm".to_string()), false), Ok(()));
    assert_eq!(c.video_format, "webm");
    let r = apply_edit(&mut c, Edit::SetVideoFormat("mp3".to_string()), false);
    assert_eq!(
        r,
        Err(EditError::Abort(
            "Please choose from the available formats: [\"avi\", \"flv\", \"mkv\", \"mov\", \"mp4\", \"webm\"]"
                .to_string()
        ))
    );
    assert_eq!(c.video_format, "webm");
}

#[test]
fn audio_format_must_be_listed() {
    let mut c = sample_config();
    assert_eq!(apply_edit(&mut c, Edit::SetAudioFormat("opus".to_string()), false), Ok(()));
    assert_eq!(c.audio_format, "opus");
    let r = apply_edit(&mut c, Edit::SetAudioFormat("mp4".to_string()), false);
    assert_eq!(
        r,
        Err(EditError::Abort(
            "Please choose from the available formats: [\"aac\", \"alac\", \"flac\", \"m4a\", \"mp3\", \"opus\", \"vorbis\", \"wav\"]"
                .to_string()
        ))
    );
}

#[test]
fn download_dest_must_exist() {
    let mut c = sample_config();
    assert_eq!(apply_edit(&mut c, Edit::SetDownloadDest("/tmp".to_string()), true), Ok(()));
    assert_eq!(c.download_dest, "/tmp");
    let r = apply_edit(&mut c, Edit::SetDownloadDest("/nope".to_string()), false);
    assert_eq!(r, Err(EditError::Abort("The file path /nope does not exist.".to_string())));
    assert_eq!(c.download_dest, "/tmp");
}

#[test]
fn format_lists_and_membership() {
    assert_eq!(video_formats(), vec!["avi", "flv", "mkv", "mov", "mp4", "webm"]);
    assert_eq!(audio_formats(), vec!["aac", "alac", "flac", "m4a", "mp3", "opus", "vorbis", "wav"]);
    assert!(is_allowed(&video_formats(), "mkv"));
    assert!(!is_allowed(&video_formats(), "MKV"));
    assert_eq!(format_list(&[]), "[]");
    assert_eq!(format_list(&["a"]), "[\"a\"]");
}

#[test]
fn toggle_setting_by_name() {
    let mut c = sample_config();
    c.toggle_setting("thumbnail_export", true);
    assert!(c.thumbnail_export);
    c.toggle_setting("thumbnail_export", true);
    assert!(c.thumbnail_export);
    c.toggle_setting("audio_export", true);
    assert!(c.audio_export);
    let before = c.clone();
    c.toggle_setting("other", false);
    assert_eq!(c, before);
}

#[test]
fn set_named_format_by_name() {
    let mut c = sample_config();
    c.set_named_format("video_format", "mkv".to_string());
    c.set_named_format("audio_format", "wav".to_string());
    assert_eq!(c.video_format, "mkv");
    assert_eq!(c.audio_format, "wav");
    let before = c.clone();
    c.set_named_format("download_dest", "x".to_string());
    assert_eq!(c, before);
}

#[test]
fn remove_video_at_index() {
    let mut c = sample_config();
    assert_eq!(c.remove_video_at(5), None);
    assert_eq!(c.videos.len(), 2);
    assert_eq!(c.remove_video_at(1), Some("https://www.youtube.com/watch?v=dQw4w9WgXcQ".to_string()));
    assert_eq!(c.videos.len(), 1);
}

#[test]
fn add_then_remove_last_restores() {
    let mut c = sample_config();
    let before = c.clone();
    c.add_video("https://q.test".to_string());
    let n = c.videos.len() - 1;
    assert_eq!(c.remove_video_at(n), Some("https://q.test".to_string()));
    assert_eq!(c, before);
}

#[test]
fn action_at_last_position_needs_no_value() {
    let a = args(&["download", "-A"]);
    assert_eq!(CmdArgs::ExportAudio.action(&a, usize::MAX), Action::Change(Edit::ToggleAudioExport));
    assert_eq!(CmdArgs::Add.action(&a, usize::MAX), Action::Notice("No URL input with -a".to_string()));
    assert_eq!(CmdArgs::Unknown.action(&a, 1), Action::Nothing);
}
