//! What the downloader is run with, and where its helper programs come from.
use vstd::prelude::*;
use crate::config::{Config, ConfigView};
use crate::text::str_eq;

verus! {

/// The arguments given to `yt-dlp` before each URL: no partial files,
/// overwrite existing ones, the Deno runtime when one is installed, the
/// destination, where ffmpeg lives, then either audio extraction in the
/// chosen codec or the chosen video container, and the thumbnail switch.
pub open spec fn spec_download_args(c: ConfigView, deno: Option<Seq<char>>, ffmpeg: Seq<char>) -> Seq<Seq<char>> {
    let base = seq!["--no-part"@, "--force-overwrites"@];
    let js = match deno {
        Some(p) => seq!["--js-runtimes"@, "deno:"@ + p],
        None => Seq::<Seq<char>>::empty(),
    };
    let place = seq!["-P"@, c.download_dest, "--ffmpeg-location"@, ffmpeg];
    let format = if c.audio_export {
        seq!["-x"@, "--audio-format"@, c.audio_format]
    } else {
        seq!["-t"@, c.video_format]
    };
    let thumb = if c.thumbnail_export {
        seq!["--write-thumbnail"@]
    } else {
        Seq::<Seq<char>>::empty()
    };
    base + js + place + format + thumb
}

/// Where each argument stands: the two fixed switches, the Deno runtime
/// when one is given, the destination and ffmpeg folder, then `-x
/// --audio-format <codec>` when audio is extracted or `-t <container>`
/// otherwise, and `--write-thumbnail` last exactly when thumbnails are on,
/// whatever the other settings are.
pub proof fn lemma_download_args_layout(c: ConfigView, deno: Option<Seq<char>>, ffmpeg: Seq<char>)
    ensures
        ({
            let a = spec_download_args(c, deno, ffmpeg);
            let j: int = if deno is Some {
                2
            } else {
                0
            };
            let n: int = 6 + j + if c.audio_export {
                3int
            } else {
                2int
            };
            &&& a[0] == "--no-part"@
            &&& a[1] == "--force-overwrites"@
            &&& (deno matches Some(p) ==> a[2] == "--js-runtimes"@ && a[3] == "deno:"@ + p)
            &&& a[2 + j] == "-P"@
            &&& a[3 + j] == c.download_dest
            &&& a[4 + j] == "--ffmpeg-location"@
            &&& a[5 + j] == ffmpeg
            &&& (c.audio_export ==> a[6 + j] == "-x"@ && a[7 + j] == "--audio-format"@ && a[8 + j]
                == c.audio_format)
            &&& (!c.audio_export ==> a[6 + j] == "-t"@ && a[7 + j] == c.video_format)
            &&& (c.thumbnail_export ==> a.len() == n + 1 && a[n] == "--write-thumbnail"@)
            &&& (!c.thumbnail_export ==> a.len() == n)
        }),
{
    let a = spec_download_args(c, deno, ffmpeg);
    let base = seq!["--no-part"@, "--force-overwrites"@];
    let js = match deno {
        Some(p) => seq!["--js-runtimes"@, "deno:"@ + p],
        None => Seq::<Seq<char>>::empty(),
    };
    let place = seq!["-P"@, c.download_dest, "--ffmpeg-location"@, ffmpeg];
    let format = if c.audio_export {
        seq!["-x"@, "--audio-format"@, c.audio_format]
    } else {
        seq!["-t"@, c.video_format]
    };
    let thumb = if c.thumbnail_export {
        seq!["--write-thumbnail"@]
    } else {
        Seq::<Seq<char>>::empty()
    };
    assert(a == base + js + place + format + thumb);
}

fn push_text(v: &mut Vec<String>, s: &str)
    ensures
        final(v).deep_view() == old(v).deep_view().push(s@),
{
    let t = s.to_string();
    v.push(t);
    proof {
        assert(v.deep_view() == old(v).deep_view().push(s@));
    }
}

/// The arguments for `yt-dlp` under `config`; `deno_path` is the Deno
/// program when it is installed, `ffmpeg_location` the folder holding
/// ffmpeg.
pub fn download_args(config: &Config, deno_path: Option<&str>, ffmpeg_location: &str) -> (r: Vec<String>)
    ensures
        r.deep_view() == spec_download_args(config@, deno_path.deep_view(), ffmpeg_location@),
{
    let mut args: Vec<String> = Vec::new();
    push_text(&mut args, "--no-part");
    push_text(&mut args, "--force-overwrites");
    match deno_path {
        Some(p) => {
            push_text(&mut args, "--js-runtimes");
            let mut runtime = "deno:".to_string();
            runtime.append(p);
            push_text(&mut args, runtime.as_str());
        },
        None => {},
    }
    push_text(&mut args, "-P");
    push_text(&mut args, config.download_dest.as_str());
    push_text(&mut args, "--ffmpeg-location");
    push_text(&mut args, ffmpeg_location);
    if config.audio_export {
        push_text(&mut args, "-x");
        push_text(&mut args, "--audio-format");
        push_text(&mut args, config.audio_format.as_str());
    } else {
        push_text(&mut args, "-t");
        push_text(&mut args, config.video_format.as_str());
    }
    if config.thumbnail_export {
        push_text(&mut args, "--write-thumbnail");
    }
    proof {
        assert(args.deep_view() == spec_download_args(config@, deno_path.deep_view(), ffmpeg_location@));
    }
    args
}

/// The log line written before each URL is downloaded.
pub fn processing_line(url: &str) -> (r: String)
    ensures
        r@ == "Processing URL: "@ + url@ + "\n"@,
{
    let mut line = "Processing URL: ".to_string();
    line.append(url);
    line.append("\n");
    line
}

/// Where the `yt-dlp` program for operating system `os` is downloaded
/// from; `None` for a system `yt-dlp` does not support.
pub fn dlp_release_url(os: &str) -> (r: Option<&'static str>)
    ensures
        r.deep_view() == (if os@ == "windows"@ {
            Some("https://github.com/yt-dlp/yt-dlp/releases/download/2026.03.17/yt-dlp.exe"@)
        } else if os@ == "macos"@ {
            Some("https://github.com/yt-dlp/yt-dlp/releases/latest/download/yt-dlp_macos"@)
        } else if os@ == "linux"@ {
            Some("https://github.com/yt-dlp/yt-dlp/releases/download/2026.03.17/yt-dlp_linux"@)
        } else {
            None
        }),
{
    if str_eq(os, "windows") {
        Some("https://github.com/yt-dlp/yt-dlp/releases/download/2026.03.17/yt-dlp.exe")
    } else if str_eq(os, "macos") {
        Some("https://github.com/yt-dlp/yt-dlp/releases/latest/download/yt-dlp_macos")
    } else if str_eq(os, "linux") {
        Some("https://github.com/yt-dlp/yt-dlp/releases/download/2026.03.17/yt-dlp_linux")
    } else {
        None
    }
}

/// Where the ffmpeg build comes from and how it unpacks.
pub struct FfmpegRelease {
    /// The archive to download.
    pub url: &'static str,
    /// The file name the archive is saved under in the libraries folder.
    pub archive: &'static str,
    /// The folder the archive unpacks to.
    pub folder: &'static str,
    /// The ffmpeg program inside `folder/bin`.
    pub binary: &'static str,
}

/// The ffmpeg build for Windows (a zip archive) or for every other system
/// (a Linux tarball).
pub fn ffmpeg_release(windows: bool) -> (r: FfmpegRelease)
    ensures
        windows ==> r.url@ == "https://github.com/BtbN/FFmpeg-Builds/releases/download/latest/ffmpeg-master-latest-win64-gpl.zip"@
            && r.archive@ == "ffmpeg.zip"@ && r.folder@ == "libs/ffmpeg-master-latest-win64-gpl"@
            && r.binary@ == "ffmpeg.exe"@,
        !windows ==> r.url@ == "https://github.com/BtbN/FFmpeg-Builds/releases/download/latest/ffmpeg-master-latest-linux64-gpl.tar.xz"@
            && r.archive@ == "ffmpeg.tar.xz"@ && r.folder@ == "libs/ffmpeg-master-latest-linux64-gpl"@
            && r.binary@ == "ffmpeg"@,
{
    if windows {
        FfmpegRelease {
            url: "https://github.com/BtbN/FFmpeg-Builds/releases/download/latest/ffmpeg-master-latest-win64-gpl.zip",
            archive: "ffmpeg.zip",
            folder: "libs/ffmpeg-master-latest-win64-gpl",
            binary: "ffmpeg.exe",
        }
    } else {
        FfmpegRelease {
            url: "https://github.com/BtbN/FFmpeg-Builds/releases/download/latest/ffmpeg-master-latest-linux64-gpl.tar.xz",
            archive: "ffmpeg.tar.xz",
            folder: "libs/ffmpeg-master-latest-linux64-gpl",
            binary: "ffmpeg",
        }
    }
}

} // verus!
