//! Following the downloader's log: splitting newly written text into lines,
//! recognising the lines that report progress, and tracking which URL is
//! being downloaded.
use vstd::prelude::*;
use crate::html::{escaped, html_escape};
use crate::text::{
    chars_of, contains_text, is_white_space, is_whitespace, matches_at, occurs_at, occurs_in,
    string_from, trim_bounds, trim_end, trimmed,
};

verus! {

/// The text of each piece of a list of character vectors.
pub open spec fn views(v: Seq<Vec<char>>) -> Seq<Seq<char>> {
    v.map_values(|p: Vec<char>| p@)
}

/// The pieces of `s` between occurrences of `sep`, as `str::split` gives
/// them: always at least one piece, empty pieces included.
pub open spec fn split_on(s: Seq<char>, sep: char) -> Seq<Seq<char>>
    decreases s.len(),
{
    if s.len() == 0 {
        seq![seq![]]
    } else {
        let p = split_on(s.drop_last(), sep);
        if s.last() == sep {
            p.push(seq![])
        } else {
            p.update(p.len() - 1, p.last().push(s.last()))
        }
    }
}

/// Splitting always gives at least one piece.
pub proof fn lemma_split_nonempty(s: Seq<char>, sep: char)
    ensures
        split_on(s, sep).len() >= 1,
    decreases s.len(),
{
    if s.len() > 0 {
        lemma_split_nonempty(s.drop_last(), sep);
    }
}

/// The pieces of `chars` between occurrences of `sep`.
pub fn split_chars(chars: &Vec<char>, sep: char) -> (r: Vec<Vec<char>>)
    ensures
        views(r@) == split_on(chars@, sep),
{
    let mut pieces: Vec<Vec<char>> = Vec::new();
    let mut cur: Vec<char> = Vec::new();
    let mut i: usize = 0;
    proof {
        assert(chars@.take(0) == Seq::<char>::empty());
        assert(views(pieces@).push(cur@) == split_on(chars@.take(0), sep));
    }
    while i < chars.len()
        invariant
            i <= chars.len(),
            views(pieces@).push(cur@) == split_on(chars@.take(i as int), sep),
        decreases chars.len() - i,
    {
        let c = chars[i];
        proof {
            assert(chars@.take(i + 1).drop_last() == chars@.take(i as int));
            assert(chars@.take(i + 1).last() == c);
            lemma_split_nonempty(chars@.take(i as int), sep);
        }
        let ghost before = pieces@;
        let ghost cur_before = cur@;
        if c == sep {
            pieces.push(cur);
            cur = Vec::new();
            proof {
                assert(views(pieces@) == views(before).push(cur_before));
            }
        } else {
            cur.push(c);
            proof {
                assert(views(pieces@).push(cur@) == views(before).push(cur_before).update(
                    before.len() as int,
                    cur_before.push(c),
                ));
            }
        }
        proof {
            assert(views(pieces@).push(cur@) == split_on(chars@.take(i + 1), sep));
        }
        i = i + 1;
    }
    let ghost before = pieces@;
    let ghost last = cur@;
    pieces.push(cur);
    proof {
        assert(chars@.take(chars@.len() as int) == chars@);
        assert(views(pieces@) == views(before).push(last));
    }
    pieces
}


/// `p` without one trailing carriage return.
pub open spec fn strip_cr(p: Seq<char>) -> Seq<char> {
    if p.len() > 0 && p.last() == '\r' {
        p.drop_last()
    } else {
        p
    }
}

/// The lines of `s`, as `str::lines` gives them: split at `\n`, a `\r`
/// just before a `\n` dropped, no empty line after a final `\n`, and a `\r`
/// that ends the text without a `\n` kept.
pub open spec fn spec_lines(s: Seq<char>) -> Seq<Seq<char>> {
    let parts = split_on(s, '\n');
    let head = parts.drop_last().map_values(|p: Seq<char>| strip_cr(p));
    if parts.last().len() == 0 {
        head
    } else {
        head.push(parts.last())
    }
}

/// A copy of `v[lo..hi]`.
pub fn slice_chars(v: &Vec<char>, lo: usize, hi: usize) -> (r: Vec<char>)
    requires
        lo <= hi <= v.len(),
    ensures
        r@ == v@.subrange(lo as int, hi as int),
{
    let mut out: Vec<char> = Vec::new();
    let mut k = lo;
    while k < hi
        invariant
            lo <= k <= hi <= v.len(),
            out@ == v@.subrange(lo as int, k as int),
        decreases hi - k,
    {
        out.push(v[k]);
        proof {
            assert(v@.subrange(lo as int, k + 1) == v@.subrange(lo as int, k as int).push(v@[k as int]));
        }
        k = k + 1;
    }
    out
}

/// The lines of `chars`.
pub fn lines_of(chars: &Vec<char>) -> (r: Vec<Vec<char>>)
    ensures
        views(r@) == spec_lines(chars@),
{
    let parts = split_chars(chars, '\n');
    proof {
        lemma_split_nonempty(chars@, '\n');
    }
    let n = parts.len();
    let ghost pv = views(parts@);
    let mut out: Vec<Vec<char>> = Vec::new();
    let mut i: usize = 0;
    while i + 1 < n
        invariant
            n == parts.len() >= 1,
            pv == views(parts@),
            pv == split_on(chars@, '\n'),
            i + 1 <= n,
            views(out@) == pv.take(i as int).map_values(|p: Seq<char>| strip_cr(p)),
        decreases n - i,
    {
        let p = &parts[i];
        let pl = p.len();
        let piece = if pl > 0 && p[pl - 1] == '\r' {
            slice_chars(p, 0, pl - 1)
        } else {
            slice_chars(p, 0, pl)
        };
        proof {
            assert(pv[i as int] == p@);
            assert(piece@ == strip_cr(p@));
        }
        let ghost before = out@;
        out.push(piece);
        proof {
            assert(views(out@) == views(before).push(piece@));
            assert(pv.take(i + 1).map_values(|p: Seq<char>| strip_cr(p)) == pv.take(i as int).map_values(
                |p: Seq<char>| strip_cr(p),
            ).push(strip_cr(pv[i as int])));
        }
        i = i + 1;
    }
    proof {
        assert(pv.take(i as int) == pv.drop_last());
    }
    let last = &parts[n - 1];
    proof {
        assert(pv.last() == last@);
    }
    if last.len() > 0 {
        let ghost before = out@;
        let copy = slice_chars(last, 0, last.len());
        proof {
            assert(copy@ == last@);
        }
        out.push(copy);
        proof {
            assert(views(out@) == views(before).push(last@));
        }
    }
    out
}

/// The position of the last `c` in `s`.
pub open spec fn last_index_of(s: Seq<char>, c: char) -> Option<int>
    decreases s.len(),
{
    if s.len() == 0 {
        None
    } else if s.last() == c {
        Some(s.len() - 1)
    } else {
        last_index_of(s.drop_last(), c)
    }
}

/// The position of the last `c` in `v`.
pub fn rfind_char(v: &Vec<char>, c: char) -> (r: Option<usize>)
    ensures
        r matches Some(p) ==> p < v.len() && last_index_of(v@, c) == Some(p as int),
        r is None ==> last_index_of(v@, c) is None,
{
    let mut j = v.len();
    proof {
        assert(v@.take(j as int) == v@);
    }
    while j > 0
        invariant
            j <= v.len(),
            last_index_of(v@, c) == last_index_of(v@.take(j as int), c),
        decreases j,
    {
        proof {
            assert(v@.take(j as int).drop_last() == v@.take(j - 1));
        }
        if v[j - 1] == c {
            return Some(j - 1);
        }
        j = j - 1;
    }
    None
}

/// The run of non-white-space characters that ends `t`.
pub open spec fn last_run(t: Seq<char>) -> Seq<char>
    decreases t.len(),
{
    if t.len() == 0 || is_white_space(t.last()) {
        seq![]
    } else {
        last_run(t.drop_last()).push(t.last())
    }
}

/// The last white-space separated word of `s`, as
/// `split_whitespace().next_back()` gives it.
pub open spec fn last_word(s: Seq<char>) -> Option<Seq<char>> {
    let t = trim_end(s);
    if t.len() == 0 {
        None
    } else {
        Some(last_run(t))
    }
}

/// The last white-space separated word of `v[..end]`.
pub fn last_word_before(v: &Vec<char>, end: usize) -> (r: Option<Vec<char>>)
    requires
        end <= v.len(),
    ensures
        r matches Some(w) ==> last_word(v@.take(end as int)) == Some(w@),
        r is None ==> last_word(v@.take(end as int)) is None,
{
    let mut e = end;
    while e > 0 && is_whitespace(v[e - 1])
        invariant
            e <= end <= v.len(),
            trim_end(v@.take(end as int)) == trim_end(v@.take(e as int)),
        decreases e,
    {
        proof {
            assert(v@.take(e as int).drop_last() == v@.take(e - 1));
        }
        e = e - 1;
    }
    proof {
        assert(trim_end(v@.take(e as int)) == v@.take(e as int));
    }
    if e == 0 {
        return None;
    }
    let mut k = e;
    proof {
        assert(v@.subrange(k as int, e as int) == Seq::<char>::empty());
        assert(last_run(v@.take(e as int)) == last_run(v@.take(k as int)) + v@.subrange(k as int, e as int));
    }
    while k > 0 && !is_whitespace(v[k - 1])
        invariant
            k <= e <= v.len(),
            last_run(v@.take(e as int)) == last_run(v@.take(k as int)) + v@.subrange(k as int, e as int),
        decreases k,
    {
        proof {
            assert(v@.take(k as int).drop_last() == v@.take(k - 1));
            assert(v@.subrange(k - 1, e as int) == seq![v@[k - 1]] + v@.subrange(k as int, e as int));
        }
        k = k - 1;
    }
    proof {
        assert(last_run(v@.take(k as int)) == Seq::<char>::empty());
    }
    Some(slice_chars(v, k, e))
}


/// What a segment of a log line reports.
pub enum Signal {
    /// The downloader started on this URL.
    Started(Seq<char>),
    /// A progress line; the text is the number before the `%`.
    Percent(Seq<char>),
    /// The current download wrote its file.
    Finished,
    /// Nothing this tracker follows.
    Other,
}

/// What a segment of a log line reports.
#[derive(Debug, PartialEq, Eq)]
pub enum LogEvent {
    Started(String),
    Percent(String),
    Finished,
    Other,
}

impl View for LogEvent {
    type V = Signal;

    open spec fn view(&self) -> Signal {
        match self {
            LogEvent::Started(u) => Signal::Started(u@),
            LogEvent::Percent(t) => Signal::Percent(t@),
            LogEvent::Finished => Signal::Finished,
            LogEvent::Other => Signal::Other,
        }
    }
}

/// What the trimmed, non-empty segment `seg` reports: a line starting
/// `Processing URL: ` starts that URL; a line containing `[download]`
/// reports the last word before its last `%`; a line containing
/// `Destination:` finishes the current download.
pub open spec fn classify(seg: Seq<char>) -> Signal {
    if occurs_at(seg, "Processing URL: "@, 0) {
        Signal::Started(trimmed(seg.skip("Processing URL: "@.len() as int)))
    } else if occurs_in(seg, "[download]"@) {
        match last_index_of(seg, '%') {
            Some(p) => match last_word(seg.take(p)) {
                Some(w) => Signal::Percent(w),
                None => Signal::Other,
            },
            None => Signal::Other,
        }
    } else if occurs_in(seg, "Destination:"@) {
        Signal::Finished
    } else {
        Signal::Other
    }
}

/// The text of `v` as a `String`.
fn text_of(v: &Vec<char>) -> (r: String)
    ensures
        r@ == v@,
{
    let s = string_from(v, 0, v.len());
    proof {
        assert(v@.subrange(0, v@.len() as int) == v@);
    }
    s
}

/// What the trimmed segment `seg` reports.
pub fn classify_segment(seg: &Vec<char>) -> (r: LogEvent)
    ensures
        r@ == classify(seg@),
{
    let prefix = chars_of("Processing URL: ");
    if matches_at(seg, &prefix, 0) {
        let rest = slice_chars(seg, prefix.len(), seg.len());
        proof {
            assert(rest@ == seg@.skip(prefix@.len() as int));
        }
        let (lo, hi) = trim_bounds(&rest);
        return LogEvent::Started(string_from(&rest, lo, hi));
    }
    let marker = chars_of("[download]");
    if contains_text(seg, &marker) {
        return match rfind_char(seg, '%') {
            Some(p) => match last_word_before(seg, p) {
                Some(w) => LogEvent::Percent(text_of(&w)),
                None => LogEvent::Other,
            },
            None => LogEvent::Other,
        };
    }
    let done = chars_of("Destination:");
    if contains_text(seg, &done) {
        LogEvent::Finished
    } else {
        LogEvent::Other
    }
}

/// What the pieces `segs` of a line report, in order; pieces that are
/// empty once trimmed report nothing.
pub open spec fn segment_signals(segs: Seq<Seq<char>>) -> Seq<Signal>
    decreases segs.len(),
{
    if segs.len() == 0 {
        seq![]
    } else {
        let t = trimmed(segs.last());
        segment_signals(segs.drop_last()) + if t.len() == 0 {
            Seq::<Signal>::empty()
        } else {
            seq![classify(t)]
        }
    }
}

/// What the lines report, in order; each line is taken apart at `\r`.
pub open spec fn lines_signals(lines: Seq<Seq<char>>) -> Seq<Signal>
    decreases lines.len(),
{
    if lines.len() == 0 {
        seq![]
    } else {
        lines_signals(lines.drop_last()) + segment_signals(split_on(lines.last(), '\r'))
    }
}

/// What newly written log text reports, in order.
pub open spec fn log_signals(chunk: Seq<char>) -> Seq<Signal> {
    lines_signals(spec_lines(chunk))
}

/// The signals of a list of events.
pub open spec fn signals_of(events: Seq<LogEvent>) -> Seq<Signal> {
    events.map_values(|e: LogEvent| e@)
}

/// Newly written log text taken apart: each line escaped for the browser,
/// and what the lines report.
pub struct LogScan {
    pub lines: Vec<String>,
    pub events: Vec<LogEvent>,
}

/// Takes apart newly written log text: every line, HTML-escaped, to be
/// shown in the browser, and what its segments report about progress.
pub fn scan_log(chunk: &str) -> (r: LogScan)
    ensures
        r.lines.deep_view() == spec_lines(chunk@).map_values(|l: Seq<char>| escaped(l)),
        signals_of(r.events@) == log_signals(chunk@),
{
    let chars = chars_of(chunk);
    let lines = lines_of(&chars);
    let ghost lv = views(lines@);
    let mut shown: Vec<String> = Vec::new();
    let mut events: Vec<LogEvent> = Vec::new();
    let mut i: usize = 0;
    while i < lines.len()
        invariant
            i <= lines.len(),
            lv == views(lines@),
            lv == spec_lines(chunk@),
            shown.deep_view() == lv.take(i as int).map_values(|l: Seq<char>| escaped(l)),
            signals_of(events@) == lines_signals(lv.take(i as int)),
        decreases lines.len() - i,
    {
        let line = &lines[i];
        proof {
            assert(lv[i as int] == line@);
            assert(lv.take(i + 1).drop_last() == lv.take(i as int));
        }
        let segs = split_chars(line, '\r');
        let ghost sv = views(segs@);
        let ghost base = signals_of(events@);
        let mut j: usize = 0;
        while j < segs.len()
            invariant
                j <= segs.len(),
                sv == views(segs@),
                signals_of(events@) == base + segment_signals(sv.take(j as int)),
            decreases segs.len() - j,
        {
            let seg = &segs[j];
            proof {
                assert(sv[j as int] == seg@);
                assert(sv.take(j + 1).drop_last() == sv.take(j as int));
            }
            let (lo, hi) = trim_bounds(seg);
            let ghost before = events@;
            if lo < hi {
                let t = slice_chars(seg, lo, hi);
                let e = classify_segment(&t);
                events.push(e);
                proof {
                    assert(signals_of(events@) == signals_of(before).push(e@));
                }
            }
            proof {
                assert(base + segment_signals(sv.take(j + 1)) == signals_of(events@));
            }
            j = j + 1;
        }
        proof {
            assert(sv.take(segs.len() as int) == sv);
            assert(lines_signals(lv.take(i + 1)) == lines_signals(lv.take(i as int)) + segment_signals(
                split_on(line@, '\r'),
            ));
        }
        let text = text_of(line);
        let esc = html_escape(text.as_str());
        let ghost before = shown.deep_view();
        shown.push(esc);
        proof {
            assert(shown.deep_view() == before.push(esc@));
            assert(lv.take(i + 1).map_values(|l: Seq<char>| escaped(l)) == lv.take(i as int).map_values(
                |l: Seq<char>| escaped(l),
            ).push(escaped(lv[i as int])));
        }
        i = i + 1;
    }
    proof {
        assert(lv.take(lines.len() as int) == lv);
    }
    LogScan { lines: shown, events }
}


/// A change to the progress shown for one URL.
pub enum Update {
    /// The URL's download began: its progress is 0%.
    Begin(Seq<char>),
    /// The URL's download is done: its progress is 100%.
    Complete(Seq<char>),
    /// The URL's download reported the given percentage text; the shown
    /// progress rises to it (capped at 100%) when it parses and is not lower.
    Report(Seq<char>, Seq<char>),
}

/// A change to the progress shown for one URL.
#[derive(Debug, PartialEq, Eq)]
pub enum ProgressUpdate {
    Begin(String),
    Complete(String),
    Report(String, String),
}

impl View for ProgressUpdate {
    type V = Update;

    open spec fn view(&self) -> Update {
        match self {
            ProgressUpdate::Begin(u) => Update::Begin(u@),
            ProgressUpdate::Complete(u) => Update::Complete(u@),
            ProgressUpdate::Report(u, t) => Update::Report(u@, t@),
        }
    }
}

/// The updates of a list.
pub open spec fn updates_of(v: Seq<ProgressUpdate>) -> Seq<Update> {
    v.map_values(|u: ProgressUpdate| u@)
}

/// The URL followed after `signal`, given the URL followed before.
pub open spec fn next_current(current: Option<Seq<char>>, signal: Signal) -> Option<Seq<char>> {
    match signal {
        Signal::Started(u) => Some(u),
        _ => current,
    }
}

/// The progress changes that `signal` causes, given the URL followed
/// before it: a new URL completes the previous one and begins at 0%;
/// a percentage or a finished file applies to the URL being followed.
pub open spec fn signal_updates(current: Option<Seq<char>>, signal: Signal) -> Seq<Update> {
    match signal {
        Signal::Started(u) => match current {
            Some(prev) => seq![Update::Complete(prev), Update::Begin(u)],
            None => seq![Update::Begin(u)],
        },
        Signal::Percent(t) => match current {
            Some(c) => seq![Update::Report(c, t)],
            None => seq![],
        },
        Signal::Finished => match current {
            Some(c) => seq![Update::Complete(c)],
            None => seq![],
        },
        Signal::Other => seq![],
    }
}

/// Follows which URL the downloader is working on.
pub struct ProgressTracker {
    pub current_url: Option<String>,
}

impl ProgressTracker {
    /// A tracker that follows no URL.
    pub fn new() -> (r: Self)
        ensures
            r.current_url is None,
    {
        ProgressTracker { current_url: None }
    }

    /// Forgets the URL being followed, as a new run starts.
    pub fn reset(&mut self)
        ensures
            final(self).current_url is None,
    {
        self.current_url = None;
    }

    /// Takes in one event of the log and returns the progress changes it
    /// causes.
    pub fn observe(&mut self, event: &LogEvent) -> (r: Vec<ProgressUpdate>)
        ensures
            final(self).current_url.deep_view() == next_current(old(self).current_url.deep_view(), event@),
            updates_of(r@) == signal_updates(old(self).current_url.deep_view(), event@),
    {
        let mut out: Vec<ProgressUpdate> = Vec::new();
        match event {
            LogEvent::Started(u) => {
                match &self.current_url {
                    Some(prev) => out.push(ProgressUpdate::Complete(prev.clone())),
                    None => {},
                }
                out.push(ProgressUpdate::Begin(u.clone()));
                self.current_url = Some(u.clone());
            },
            LogEvent::Percent(t) => {
                match &self.current_url {
                    Some(c) => out.push(ProgressUpdate::Report(c.clone(), t.clone())),
                    None => {},
                }
            },
            LogEvent::Finished => {
                match &self.current_url {
                    Some(c) => out.push(ProgressUpdate::Complete(c.clone())),
                    None => {},
                }
            },
            LogEvent::Other => {},
        }
        proof {
            assert(updates_of(out@) == signal_updates(old(self).current_url.deep_view(), event@));
        }
        out
    }
}

/// A segment that does not start a URL and holds no `[download]` report
/// finishes the current download whenever `Destination:` appears anywhere
/// in it, as in `[ExtractAudio] Destination: a.mp3`; and a segment that
/// holds neither `Processing URL: ` at its start, `[download]` nor
/// `Destination:` reports nothing.
pub proof fn lemma_destination_anywhere_finishes(seg: Seq<char>, k: int)
    requires
        !occurs_at(seg, "Processing URL: "@, 0),
        !occurs_in(seg, "[download]"@),
    ensures
        occurs_at(seg, "Destination:"@, k) ==> classify(seg) == Signal::Finished,
        !occurs_in(seg, "Destination:"@) ==> classify(seg) == Signal::Other,
{
}

/// When a new URL starts while another is followed, the other one is
/// marked complete before the new one begins, and the new one is followed.
pub proof fn lemma_start_completes_previous(prev: Seq<char>, next: Seq<char>)
    ensures
        signal_updates(Some(prev), Signal::Started(next)) == seq![Update::Complete(prev), Update::Begin(next)],
        next_current(Some(prev), Signal::Started(next)) == Some(next),
{
}

/// Where to read newly written log text: `offset` is how far the log was
/// read, `len` its length now. A log shorter than the offset was cleared, so
/// reading starts over from its beginning.
pub open spec fn spec_tail_window(offset: u64, len: u64) -> (u64, Option<u64>) {
    let start = if len < offset {
        0
    } else {
        offset
    };
    if len > start {
        (len, Some(start))
    } else {
        (start, None)
    }
}

/// The new read offset, and the position to read the log from when it has
/// new text.
pub fn tail_window(offset: u64, len: u64) -> (r: (u64, Option<u64>))
    ensures
        r == spec_tail_window(offset, len),
{
    let start = if len < offset {
        0
    } else {
        offset
    };
    if len > start {
        (len, Some(start))
    } else {
        (start, None)
    }
}

/// After each look at the log, the offset is the log's length: all of it
/// counts as read, and whatever is read starts before that length.
pub proof fn lemma_tail_reads_to_end(offset: u64, len: u64)
    ensures
        spec_tail_window(offset, len).0 == len,
        spec_tail_window(offset, len).1 matches Some(start) ==> start < len && (start == offset || start == 0),
{
}

} // verus!
