//! The stored configuration: where downloads go, which formats to use, and
//! the queue of video URLs.
use vstd::prelude::*;
use crate::html::str_views;
use crate::text::str_eq;
use vstd::utf8::encode_utf8;

verus! {

/// The settings kept in `config.json`.
#[derive(Debug, Clone, PartialEq, Eq)]
pub struct Config {
    pub download_dest: String,
    pub video_format: String,
    pub audio_export: bool,
    pub audio_format: String,
    pub thumbnail_export: bool,
    pub videos: Vec<String>,
}

/// The contents of a `Config` as plain text values.
pub struct ConfigView {
    pub download_dest: Seq<char>,
    pub video_format: Seq<char>,
    pub audio_export: bool,
    pub audio_format: Seq<char>,
    pub thumbnail_export: bool,
    pub videos: Seq<Seq<char>>,
}

impl View for Config {
    type V = ConfigView;

    open spec fn view(&self) -> ConfigView {
        ConfigView {
            download_dest: self.download_dest@,
            video_format: self.video_format@,
            audio_export: self.audio_export,
            audio_format: self.audio_format@,
            thumbnail_export: self.thumbnail_export,
            videos: self.videos.deep_view(),
        }
    }
}

/// The video containers that may be chosen.
pub open spec fn spec_video_formats() -> Seq<Seq<char>> {
    seq!["avi"@, "flv"@, "mkv"@, "mov"@, "mp4"@, "webm"@]
}

/// The audio codecs that may be chosen.
pub open spec fn spec_audio_formats() -> Seq<Seq<char>> {
    seq!["aac"@, "alac"@, "flac"@, "m4a"@, "mp3"@, "opus"@, "vorbis"@, "wav"@]
}

/// The video containers that may be chosen, in display order.
pub fn video_formats() -> (r: Vec<&'static str>)
    ensures
        str_views(r@) == spec_video_formats(),
{
    let mut v: Vec<&'static str> = Vec::new();
    v.push("avi");
    v.push("flv");
    v.push("mkv");
    v.push("mov");
    v.push("mp4");
    v.push("webm");
    proof {
        assert(str_views(v@) == spec_video_formats());
    }
    v
}

/// The audio codecs that may be chosen, in display order.
pub fn audio_formats() -> (r: Vec<&'static str>)
    ensures
        str_views(r@) == spec_audio_formats(),
{
    let mut v: Vec<&'static str> = Vec::new();
    v.push("aac");
    v.push("alac");
    v.push("flac");
    v.push("m4a");
    v.push("mp3");
    v.push("opus");
    v.push("vorbis");
    v.push("wav");
    proof {
        assert(str_views(v@) == spec_audio_formats());
    }
    v
}

/// Whether `value` is one of `allowed`.
pub fn is_allowed(allowed: &[&str], value: &str) -> (r: bool)
    ensures
        r == str_views(allowed@).contains(value@),
{
    let mut i: usize = 0;
    while i < allowed.len()
        invariant
            i <= allowed@.len(),
            forall|k: int| 0 <= k < i ==> allowed@[k]@ != value@,
        decreases allowed@.len() - i,
    {
        if str_eq(allowed[i], value) {
            proof {
                assert(str_views(allowed@)[i as int] == value@);
            }
            return true;
        }
        i = i + 1;
    }
    proof {
        if str_views(allowed@).contains(value@) {
            let k = choose|k: int| 0 <= k < str_views(allowed@).len() && str_views(allowed@)[k] == value@;
            assert(allowed@[k]@ == value@);
        }
    }
    false
}

/// Whether byte string `a` sorts before or equal to `b` in lexicographic
/// order, the order of `String`'s `Ord`.
pub open spec fn bytes_le(a: Seq<u8>, b: Seq<u8>) -> bool
    decreases a.len(),
{
    if a.len() == 0 {
        true
    } else if b.len() == 0 {
        false
    } else if a[0] != b[0] {
        a[0] < b[0]
    } else {
        bytes_le(a.drop_first(), b.drop_first())
    }
}

/// Whether the strings of `v` are in ascending order by their UTF-8 bytes.
pub open spec fn sorted_by_bytes(v: Seq<Seq<char>>) -> bool {
    forall|i: int, j: int|
        0 <= i < j < v.len() ==> bytes_le(encode_utf8(#[trigger] v[i]), encode_utf8(#[trigger] v[j]))
}

/// What `<[String]>::binary_search` returns for a queue holding `videos`
/// and the needle `url`.
pub uninterp spec fn binary_search_result(videos: Seq<Seq<char>>, url: Seq<char>) -> Result<usize, usize>;

/// Searches the queue with `<[String]>::binary_search`. Its documentation
/// promises, for a slice sorted by `Ord`, `Ok` with the index of a match when
/// the value is present and `Err` when it is absent; for a slice that is not
/// sorted it promises nothing, so nothing more is stated here than the name
/// of the result.
#[verifier::external_body]
fn search_videos(videos: &Vec<String>, url: &String) -> (r: Result<usize, usize>)
    ensures
        r == binary_search_result(videos.deep_view(), url@),
        sorted_by_bytes(videos.deep_view()) ==> (r is Ok <==> videos.deep_view().contains(url@)),
        sorted_by_bytes(videos.deep_view()) ==> (r matches Ok(i) ==> i < videos.len()
            && videos.deep_view()[i as int] == url@),
{
    videos.binary_search(url)
}

/// The index that a search result designates, when it designates an entry
/// equal to `url`.
pub open spec fn found_index(videos: Seq<Seq<char>>, url: Seq<char>, found: Result<usize, usize>) -> Option<int> {
    match found {
        Ok(i) => if i < videos.len() && videos[i as int] == url {
            Some(i as int)
        } else {
            None
        },
        Err(_) => None,
    }
}

/// Removes from `videos` the entry that the search result `found` points
/// at, provided that entry equals `url`; returns whether it removed one.
pub fn remove_found(videos: &mut Vec<String>, url: &String, found: Result<usize, usize>) -> (removed: bool)
    ensures
        removed == found_index(old(videos).deep_view(), url@, found) is Some,
        removed ==> final(videos).deep_view() == old(videos).deep_view().remove(
            found_index(old(videos).deep_view(), url@, found)->0,
        ),
        !removed ==> final(videos)@ == old(videos)@,
{
    match found {
        Ok(i) => {
            if i < videos.len() && videos[i] == *url {
                videos.remove(i);
                proof {
                    assert(videos.deep_view() == old(videos).deep_view().remove(i as int));
                }
                true
            } else {
                false
            }
        },
        Err(_) => false,
    }
}

/// `c` with `url` appended to the queue.
pub open spec fn with_video(c: ConfigView, url: Seq<char>) -> ConfigView {
    ConfigView { videos: c.videos.push(url), ..c }
}

/// `c` without the queue entry at `index`.
pub open spec fn without_video_at(c: ConfigView, index: int) -> ConfigView {
    ConfigView { videos: c.videos.remove(index), ..c }
}

/// `c` with the switch named `key` set to `enabled`, when `key` names one.
pub open spec fn toggled(c: ConfigView, key: Seq<char>, enabled: bool) -> ConfigView {
    if key == "audio_export"@ {
        ConfigView { audio_export: enabled, ..c }
    } else if key == "thumbnail_export"@ {
        ConfigView { thumbnail_export: enabled, ..c }
    } else {
        c
    }
}

/// Setting a switch is idempotent: setting it again to the same value
/// changes nothing, and the switch then reads as set.
pub proof fn lemma_toggle_setting_idempotent(c: ConfigView, key: Seq<char>, enabled: bool)
    ensures
        toggled(toggled(c, key, enabled), key, enabled) == toggled(c, key, enabled),
        key == "audio_export"@ ==> toggled(c, key, enabled).audio_export == enabled,
        key == "thumbnail_export"@ ==> toggled(c, key, enabled).thumbnail_export == enabled,
{
    reveal_strlit("audio_export");
    reveal_strlit("thumbnail_export");
    assert("audio_export"@[0] != "thumbnail_export"@[0]);
}

/// Queueing a URL and then removing the last queue entry, as the queue's
/// remove button for the new entry does, gives back the configuration.
pub proof fn lemma_add_then_remove_last(c: ConfigView, url: Seq<char>)
    ensures
        without_video_at(with_video(c, url), c.videos.len() as int) == c,
        with_video(c, url).videos.len() == c.videos.len() + 1,
{
    assert(c.videos.push(url).remove(c.videos.len() as int) == c.videos);
}

impl Config {
    /// Removes the entry for `url` that a binary search of the queue finds;
    /// returns whether one was removed. A URL absent from the queue is never
    /// removed; in a sorted queue a present URL always is.
    pub fn remove_video(&mut self, url: &String) -> (removed: bool)
        ensures
            removed == found_index(old(self)@.videos, url@, binary_search_result(old(self)@.videos, url@)) is Some,
            removed ==> final(self)@ == (ConfigView {
                videos: old(self)@.videos.remove(
                    found_index(old(self)@.videos, url@, binary_search_result(old(self)@.videos, url@))->0,
                ),
                ..old(self)@
            }),
            !removed ==> final(self)@ == old(self)@,
            !old(self)@.videos.contains(url@) ==> !removed,
            sorted_by_bytes(old(self)@.videos) && old(self)@.videos.contains(url@) ==> removed,
    {
        let found = search_videos(&self.videos, url);
        let removed = remove_found(&mut self.videos, url, found);
        removed
    }

    /// Appends `url` to the queue.
    pub fn add_video(&mut self, url: String)
        ensures
            final(self)@ == with_video(old(self)@, url@),
    {
        self.videos.push(url);
        proof {
            assert(self.videos.deep_view() == old(self).videos.deep_view().push(url@));
        }
    }

    /// Flips whether audio is extracted.
    pub fn toggle_audio_export(&mut self)
        ensures
            final(self)@ == (ConfigView { audio_export: !old(self)@.audio_export, ..old(self)@ }),
    {
        self.audio_export = !self.audio_export;
    }

    /// Sets the switch named `key` (`audio_export` or `thumbnail_export`) to
    /// `enabled`; any other key changes nothing.
    pub fn toggle_setting(&mut self, key: &str, enabled: bool)
        ensures
            final(self)@ == toggled(old(self)@, key@, enabled),
    {
        if str_eq(key, "audio_export") {
            self.audio_export = enabled;
        } else if str_eq(key, "thumbnail_export") {
            self.thumbnail_export = enabled;
        }
    }

    /// Sets the format named `key` (`video_format` or `audio_format`) to
    /// `value`; any other key changes nothing.
    pub fn set_named_format(&mut self, key: &str, value: String)
        ensures
            final(self)@ == (if key@ == "video_format"@ {
                ConfigView { video_format: value@, ..old(self)@ }
            } else if key@ == "audio_format"@ {
                ConfigView { audio_format: value@, ..old(self)@ }
            } else {
                old(self)@
            }),
    {
        if str_eq(key, "video_format") {
            self.video_format = value;
        } else if str_eq(key, "audio_format") {
            self.audio_format = value;
        }
    }

    /// Removes the queue entry at `index` and returns it; an index past the
    /// end changes nothing.
    pub fn remove_video_at(&mut self, index: usize) -> (r: Option<String>)
        ensures
            index < old(self).videos.len() ==> r is Some && r->0@ == old(self)@.videos[index as int]
                && final(self)@ == without_video_at(old(self)@, index as int),
            index >= old(self).videos.len() ==> r is None && final(self)@ == old(self)@,
    {
        if index < self.videos.len() {
            let removed = self.videos.remove(index);
            proof {
                assert(self.videos.deep_view() == old(self).videos.deep_view().remove(index as int));
            }
            Some(removed)
        } else {
            None
        }
    }
}

} // verus!
