//! HTML fragments served by the web interface.
use vstd::prelude::*;
use crate::text::{push_char, str_eq, decimal, decimal_string, occurs_at, replaced, replace_all};

verus! {

/// What `html_escape` writes for one character: `&`, `<`, `>` and `"`
/// become entities, every other character stays as it is.
pub open spec fn escape_char(c: char) -> Seq<char> {
    if c == '&' {
        seq!['&', 'a', 'm', 'p', ';']
    } else if c == '<' {
        seq!['&', 'l', 't', ';']
    } else if c == '>' {
        seq!['&', 'g', 't', ';']
    } else if c == '"' {
        seq!['&', 'q', 'u', 'o', 't', ';']
    } else {
        seq![c]
    }
}

/// `s` with each character replaced by its escape.
pub open spec fn escaped(s: Seq<char>) -> Seq<char>
    decreases s.len(),
{
    if s.len() == 0 {
        seq![]
    } else {
        escaped(s.drop_last()) + escape_char(s.last())
    }
}

/// Escapes `&`, `<`, `>` and `"` so that `input` can stand in HTML text or
/// in a double-quoted attribute.
pub fn html_escape(input: &str) -> (r: String)
    ensures
        r@ == escaped(input@),
{
    let mut out = String::new();
    for c in it: input.chars()
        invariant
            it.seq() == input@,
            out@ == escaped(it.seq().take(it.index() as int)),
    {
        let ghost done = it.seq().take(it.index() as int);
        proof {
            assert(it.seq().take(it.index() + 1).drop_last() == done);
            reveal_strlit("&amp;");
            reveal_strlit("&lt;");
            reveal_strlit("&gt;");
            reveal_strlit("&quot;");
        }
        if c == '&' {
            out.append("&amp;");
        } else if c == '<' {
            out.append("&lt;");
        } else if c == '>' {
            out.append("&gt;");
        } else if c == '"' {
            out.append("&quot;");
        } else {
            push_char(&mut out, c);
        }
    }
    proof {
        assert(input@.take(input@.len() as int) == input@);
    }
    out
}


/// Escaping leaves no `<`, `>` or `"` in the text, so escaped text cannot
/// open a tag or close a quoted attribute.
pub proof fn lemma_escaped_has_no_markup(s: Seq<char>)
    ensures
        forall|i: int|
            0 <= i < escaped(s).len() ==> {
                let c = #[trigger] escaped(s)[i];
                c != '<' && c != '>' && c != '"'
            },
    decreases s.len(),
{
    if s.len() > 0 {
        lemma_escaped_has_no_markup(s.drop_last());
        let head = escaped(s.drop_last());
        let tail = escape_char(s.last());
        assert forall|i: int| 0 <= i < escaped(s).len() implies {
            let c = #[trigger] escaped(s)[i];
            c != '<' && c != '>' && c != '"'
        } by {
            if i >= head.len() {
                assert(escaped(s)[i] == tail[i - head.len()]);
            } else {
                assert(escaped(s)[i] == head[i]);
            }
        }
    }
}

/// The character that undoing step `k` of the unescaping brings back:
/// `"` first, then `>`, then `<`, and `&` last.
pub open spec fn step_char(k: int) -> char {
    if k == 0 {
        '"'
    } else if k == 1 {
        '>'
    } else if k == 2 {
        '<'
    } else {
        '&'
    }
}

/// Whether `c` is still written as an entity once the first `k` steps of
/// the unescaping are done.
pub open spec fn still_escaped(c: char, k: int) -> bool {
    ||| c == '&' && k < 4
    ||| c == '<' && k < 3
    ||| c == '>' && k < 2
    ||| c == '"' && k < 1
}

/// How `c` reads after the first `k` steps of the unescaping.
pub open spec fn stage_token(c: char, k: int) -> Seq<char> {
    if still_escaped(c, k) {
        escape_char(c)
    } else {
        seq![c]
    }
}

/// How `s` reads, escaped, after the first `k` steps of the unescaping.
pub open spec fn staged(s: Seq<char>, k: int) -> Seq<char>
    decreases s.len(),
{
    if s.len() == 0 {
        seq![]
    } else {
        stage_token(s[0], k) + staged(s.drop_first(), k)
    }
}

/// Undoes the four replacements of `html_escape`: `&quot;`, `&gt;` and
/// `&lt;` first, `&amp;` last.
pub open spec fn unescaped(t: Seq<char>) -> Seq<char> {
    let t1 = replaced(t, seq!['&', 'q', 'u', 'o', 't', ';'], seq!['"']);
    let t2 = replaced(t1, seq!['&', 'g', 't', ';'], seq!['>']);
    let t3 = replaced(t2, seq!['&', 'l', 't', ';'], seq!['<']);
    replaced(t3, seq!['&', 'a', 'm', 'p', ';'], seq!['&'])
}

proof fn lemma_staged_push(s: Seq<char>, k: int)
    requires
        s.len() > 0,
    ensures
        staged(s, k) == staged(s.drop_last(), k) + stage_token(s.last(), k),
    decreases s.len(),
{
    if s.len() > 1 {
        lemma_staged_push(s.drop_first(), k);
        assert(s.drop_first().drop_last() == s.drop_last().drop_first());
        assert(s.drop_last()[0] == s[0]);
        assert(s.drop_first().last() == s.last());
    } else {
        assert(s.drop_first() == Seq::<char>::empty());
        assert(s.drop_last() == Seq::<char>::empty());
        assert(staged(s.drop_first(), k) == Seq::<char>::empty());
        assert(staged(s.drop_last(), k) == Seq::<char>::empty());
    }
}

proof fn lemma_staged_start(s: Seq<char>)
    ensures
        staged(s, 0) == escaped(s),
    decreases s.len(),
{
    if s.len() > 0 {
        lemma_staged_start(s.drop_last());
        lemma_staged_push(s, 0);
        let c = s.last();
        assert(stage_token(c, 0) == escape_char(c));
    }
}

proof fn lemma_staged_end(s: Seq<char>)
    ensures
        staged(s, 4) == s,
    decreases s.len(),
{
    if s.len() > 0 {
        lemma_staged_end(s.drop_first());
        assert(seq![s[0]] + s.drop_first() == s);
    }
}

proof fn lemma_replace_plain_prefix(a: Seq<char>, r: Seq<char>, p: Seq<char>, w: Seq<char>)
    requires
        p.len() > 0,
        p[0] == '&',
        forall|i: int| 0 <= i < a.len() ==> a[i] != '&',
    ensures
        replaced(a + r, p, w) == a + replaced(r, p, w),
    decreases a.len(),
{
    let s = a + r;
    if a.len() == 0 {
        assert(s == r);
    } else {
        if occurs_at(s, p, 0) {
            assert(s.subrange(0, p.len() as int)[0] == s[0]);
        }
        assert(s.drop_first() == a.drop_first() + r);
        lemma_replace_plain_prefix(a.drop_first(), r, p, w);
        assert(seq![a[0]] + a.drop_first() == a);
    }
}

proof fn lemma_stage_step(s: Seq<char>, k: int)
    requires
        0 <= k < 4,
    ensures
        replaced(staged(s, k), escape_char(step_char(k)), seq![step_char(k)]) == staged(s, k + 1),
    decreases s.len(),
{
    let p = escape_char(step_char(k));
    let w = seq![step_char(k)];
    if s.len() > 0 {
        let c = s[0];
        let t = stage_token(c, k);
        let rest = staged(s.drop_first(), k);
        lemma_stage_step(s.drop_first(), k);
        assert(staged(s, k) == t + rest);
        assert(p[0] == '&' && p.len() >= 4);
        if c == step_char(k) {
            assert(t == p);
            assert((t + rest).subrange(0, p.len() as int) == p);
            assert((t + rest).skip(p.len() as int) == rest);
            assert(stage_token(c, k + 1) == w);
        } else if still_escaped(c, k) {
            assert(t.len() >= 4 && t[0] == '&' && t[1] != p[1]);
            if occurs_at(t + rest, p, 0) {
                assert((t + rest).subrange(0, p.len() as int)[1] == (t + rest)[1]);
            }
            assert((t + rest).drop_first() == t.drop_first() + rest);
            lemma_replace_plain_prefix(t.drop_first(), rest, p, w);
            assert(seq![t[0]] + t.drop_first() == t);
            assert(stage_token(c, k + 1) == t);
        } else {
            assert(t == seq![c] && c != '&');
            lemma_replace_plain_prefix(t, rest, p, w);
            assert(stage_token(c, k + 1) == t);
        }
    }
}

/// Escaping can be undone: replacing `&quot;`, `&gt;`, `&lt;` and then
/// `&amp;` by the characters they stand for gives the text back.
pub proof fn lemma_unescape_escaped(s: Seq<char>)
    ensures
        unescaped(escaped(s)) == s,
{
    lemma_staged_start(s);
    lemma_stage_step(s, 0);
    lemma_stage_step(s, 1);
    lemma_stage_step(s, 2);
    lemma_stage_step(s, 3);
    lemma_staged_end(s);
    assert(escape_char(step_char(0)) == seq!['&', 'q', 'u', 'o', 't', ';']);
    assert(escape_char(step_char(1)) == seq!['&', 'g', 't', ';']);
    assert(escape_char(step_char(2)) == seq!['&', 'l', 't', ';']);
    assert(escape_char(step_char(3)) == seq!['&', 'a', 'm', 'p', ';']);
}

/// Every `&` in escaped text starts one of the four entities `&amp;`,
/// `&lt;`, `&gt;` and `&quot;`.
pub proof fn lemma_escaped_amp_starts_entity(s: Seq<char>)
    ensures
        forall|i: int|
            0 <= i < escaped(s).len() && #[trigger] escaped(s)[i] == '&' ==> {
                ||| occurs_at(escaped(s), seq!['&', 'a', 'm', 'p', ';'], i)
                ||| occurs_at(escaped(s), seq!['&', 'l', 't', ';'], i)
                ||| occurs_at(escaped(s), seq!['&', 'g', 't', ';'], i)
                ||| occurs_at(escaped(s), seq!['&', 'q', 'u', 'o', 't', ';'], i)
            },
    decreases s.len(),
{
    if s.len() > 0 {
        lemma_escaped_amp_starts_entity(s.drop_last());
        let head = escaped(s.drop_last());
        let tail = escape_char(s.last());
        let all = escaped(s);
        assert(all == head + tail);
        assert forall|i: int| 0 <= i < all.len() && #[trigger] all[i] == '&' implies {
            ||| occurs_at(all, seq!['&', 'a', 'm', 'p', ';'], i)
            ||| occurs_at(all, seq!['&', 'l', 't', ';'], i)
            ||| occurs_at(all, seq!['&', 'g', 't', ';'], i)
            ||| occurs_at(all, seq!['&', 'q', 'u', 'o', 't', ';'], i)
        } by {
            if i < head.len() {
                assert(all[i] == head[i]);
                let e = if occurs_at(head, seq!['&', 'a', 'm', 'p', ';'], i) {
                    seq!['&', 'a', 'm', 'p', ';']
                } else if occurs_at(head, seq!['&', 'l', 't', ';'], i) {
                    seq!['&', 'l', 't', ';']
                } else if occurs_at(head, seq!['&', 'g', 't', ';'], i) {
                    seq!['&', 'g', 't', ';']
                } else {
                    seq!['&', 'q', 'u', 'o', 't', ';']
                };
                assert(occurs_at(head, e, i));
                assert(all.subrange(i, i + e.len()) == head.subrange(i, i + e.len()));
            } else {
                let j = i - head.len();
                assert(all[i] == tail[j]);
                assert(j == 0);
                assert(all.subrange(i, i + tail.len()) == tail);
            }
        }
    }
}

/// Whether `c` is one of the characters that `html_escape` rewrites.
pub open spec fn is_markup_char(c: char) -> bool {
    c == '&' || c == '<' || c == '>' || c == '"'
}

/// Text with none of `&`, `<`, `>` and `"` comes out of escaping unchanged.
pub proof fn lemma_escape_keeps_plain_text(s: Seq<char>)
    requires
        forall|i: int| 0 <= i < s.len() ==> !is_markup_char(#[trigger] s[i]),
    ensures
        escaped(s) == s,
    decreases s.len(),
{
    if s.len() > 0 {
        assert(!is_markup_char(s[s.len() - 1]));
        lemma_escape_keeps_plain_text(s.drop_last());
        assert(s.drop_last().push(s.last()) == s);
    }
}

/// The `<option>` element for format `f`, marked selected when `selected`.
pub open spec fn option_html(f: Seq<char>, selected: bool) -> Seq<char> {
    "<option value=\""@ + f + "\""@ + (if selected {
        " selected"@
    } else {
        Seq::<char>::empty()
    }) + ">"@ + f + "</option>"@
}

/// The `<option>` elements for `formats`, in order, the one equal to
/// `current` marked selected.
pub open spec fn options_html(formats: Seq<Seq<char>>, current: Seq<char>) -> Seq<char>
    decreases formats.len(),
{
    if formats.len() == 0 {
        seq![]
    } else {
        options_html(formats.drop_last(), current) + option_html(
            formats.last(),
            formats.last() == current,
        )
    }
}

/// The options of two format lists one after the other are the options
/// of the joined list.
pub proof fn lemma_options_concat(a: Seq<Seq<char>>, b: Seq<Seq<char>>, current: Seq<char>)
    ensures
        options_html(a + b, current) == options_html(a, current) + options_html(b, current),
    decreases b.len(),
{
    if b.len() == 0 {
        assert(a + b == a);
    } else {
        lemma_options_concat(a, b.drop_last(), current);
        assert((a + b).drop_last() == a + b.drop_last());
        assert((a + b).last() == b.last());
    }
}

/// The views of a list of string slices.
pub open spec fn str_views(formats: Seq<&str>) -> Seq<Seq<char>> {
    formats.map_values(|f: &str| f@)
}

/// The `<option>` list of a format picker: one element per format, in
/// order, with ` selected` on each format equal to `current`.
pub fn options(formats: &[&str], current: &str) -> (r: String)
    ensures
        r@ == options_html(str_views(formats@), current@),
{
    let mut out = String::new();
    let mut i: usize = 0;
    while i < formats.len()
        invariant
            i <= formats@.len(),
            out@ == options_html(str_views(formats@.take(i as int)), current@),
        decreases formats@.len() - i,
    {
        let f = formats[i];
        proof {
            assert(str_views(formats@.take(i + 1)).drop_last() == str_views(formats@.take(i as int)));
            assert(str_views(formats@.take(i + 1)).last() == f@);
        }
        out.append("<option value=\"");
        out.append(f);
        out.append("\"");
        if str_eq(f, current) {
            out.append(" selected");
        }
        out.append(">");
        out.append(f);
        out.append("</option>");
        i = i + 1;
    }
    proof {
        assert(formats@.take(formats@.len() as int) == formats@);
    }
    out
}


/// The first line of the queue: how many videos are queued.
pub open spec fn queue_meta(count: nat) -> Seq<char> {
    "<div class=\"queue-meta\">"@ + decimal(count) + " video"@ + (if count == 1 {
        Seq::<char>::empty()
    } else {
        "s"@
    }) + " queued</div>"@
}

/// One queue entry: the escaped URL, a remove button for position
/// `index`, and a progress bar of `width` percent labelled `label` percent.
pub open spec fn queue_row(url: Seq<char>, index: nat, width: Seq<char>, label: Seq<char>) -> Seq<char> {
    "<li class=\"queue-item\">\n"@ + "<span class=\"queue-url\" title=\""@ + escaped(url) + "\">"@
        + escaped(url) + "</span>\n"@ + "<button class=\"item-remove\" hx-delete=\"/api/queue/"@
        + decimal(index)
        + "\" hx-target=\"#queue-wrap\" hx-swap=\"innerHTML\" title=\"Remove\">✕</button>\n"@
        + "<div class=\"queue-progress\"><div class=\"queue-progress-fill\" style=\"width:"@ + width
        + "%\"></div><span class=\"queue-progress-label\">"@ + label + "%</span></div></li>\n"@
}

/// The rows for the first entries of the queue.
pub open spec fn queue_rows(urls: Seq<Seq<char>>, widths: Seq<Seq<char>>, labels: Seq<Seq<char>>) -> Seq<char>
    decreases urls.len(),
{
    if urls.len() == 0 {
        seq![]
    } else {
        let k = (urls.len() - 1) as int;
        queue_rows(urls.drop_last(), widths, labels) + queue_row(urls[k], k as nat, widths[k], labels[k])
    }
}

/// Row `i` of the queue panel shows the `i`-th URL with the remove button
/// for position `i` and the `i`-th progress texts, whatever the lengths of
/// the width and label lists: the rows of the first `i + 1` entries are the
/// rows of the first `i` followed by that row.
pub proof fn lemma_queue_row_positions(urls: Seq<Seq<char>>, widths: Seq<Seq<char>>, labels: Seq<Seq<char>>, i: int)
    requires
        0 <= i < urls.len(),
    ensures
        queue_rows(urls.take(i + 1), widths, labels) == queue_rows(urls.take(i), widths, labels) + queue_row(
            urls[i],
            i as nat,
            widths[i],
            labels[i],
        ),
        queue_rows(urls.take(urls.len() as int), widths, labels) == queue_rows(urls, widths, labels),
        queue_rows(urls.take(0), widths, labels) == Seq::<char>::empty(),
{
    assert(urls.take(i + 1).drop_last() == urls.take(i));
    assert(urls.take(urls.len() as int) == urls);
    assert(urls.take(0).len() == 0);
}

/// The queue panel: the count, then either a hint that the queue is empty
/// or the list of entries.
pub open spec fn queue_html(urls: Seq<Seq<char>>, widths: Seq<Seq<char>>, labels: Seq<Seq<char>>) -> Seq<char> {
    queue_meta(urls.len()) + if urls.len() == 0 {
        "<div class=\"queue-empty\">Queue is empty — paste a URL above to get started.</div>"@
    } else {
        "<ul class=\"queue-list\">"@ + queue_rows(urls, widths, labels) + "</ul>"@
    }
}

/// One entry of the queue panel.
fn render_row(video: &String, index: usize, width: &String, label: &String) -> (r: String)
    ensures
        r@ == queue_row(video@, index as nat, width@, label@),
{
    let url = html_escape(video.as_str());
    let idx = decimal_string(index);
    let mut html = String::new();
    html.append("<li class=\"queue-item\">\n");
    html.append("<span class=\"queue-url\" title=\"");
    html.append(url.as_str());
    html.append("\">");
    html.append(url.as_str());
    html.append("</span>\n");
    html.append("<button class=\"item-remove\" hx-delete=\"/api/queue/");
    html.append(idx.as_str());
    html.append("\" hx-target=\"#queue-wrap\" hx-swap=\"innerHTML\" title=\"Remove\">✕</button>\n");
    html.append("<div class=\"queue-progress\"><div class=\"queue-progress-fill\" style=\"width:");
    html.append(width.as_str());
    html.append("%\"></div><span class=\"queue-progress-label\">");
    html.append(label.as_str());
    html.append("%</span></div></li>\n");
    proof {
        assert(html@ == queue_row(video@, index as nat, width@, label@));
    }
    html
}

/// Renders the queue panel. For entry `i`, `widths[i]` and `labels[i]`
/// are its progress written out in full and rounded to a whole number.
pub fn render_queue_with_progress(videos: &Vec<String>, widths: &Vec<String>, labels: &Vec<String>) -> (r: String)
    requires
        widths.len() == videos.len(),
        labels.len() == videos.len(),
    ensures
        r@ == queue_html(videos.deep_view(), widths.deep_view(), labels.deep_view()),
{
    let count = videos.len();
    let mut html = String::new();
    html.append("<div class=\"queue-meta\">");
    let n = decimal_string(count);
    html.append(n.as_str());
    html.append(" video");
    if count != 1 {
        html.append("s");
    }
    html.append(" queued</div>");
    proof {
        assert(html@ == queue_meta(count as nat));
    }
    if count == 0 {
        html.append("<div class=\"queue-empty\">Queue is empty — paste a URL above to get started.</div>");
        return html;
    }
    let ghost meta = html@;
    html.append("<ul class=\"queue-list\">");
    let ghost head = html@;
    let ghost uv = videos.deep_view();
    let ghost wv = widths.deep_view();
    let ghost lv = labels.deep_view();
    let mut i: usize = 0;
    while i < count
        invariant
            i <= count == videos.len() == widths.len() == labels.len(),
            uv == videos.deep_view(),
            wv == widths.deep_view(),
            lv == labels.deep_view(),
            html@ == head + queue_rows(uv.take(i as int), wv, lv),
        decreases count - i,
    {
        let row = render_row(&videos[i], i, &widths[i], &labels[i]);
        html.append(row.as_str());
        proof {
            assert(uv.take(i + 1).drop_last() == uv.take(i as int));
            assert(uv.take(i + 1)[i as int] == videos[i as int]@);
            assert(wv[i as int] == widths[i as int]@);
            assert(lv[i as int] == labels[i as int]@);
            assert(html@ == head + queue_rows(uv.take(i + 1), wv, lv));
        }
        i = i + 1;
    }
    html.append("</ul>");
    proof {
        assert(uv.take(count as int) == uv);
    }
    html
}

/// The library page: `template` with the escaped download destination in
/// place of `{{DEST_VALUE}}`.
pub fn render_library_page(template: &str, dest: &str) -> (r: String)
    ensures
        r@ == replaced(template@, "{{DEST_VALUE}}"@, escaped(dest@)),
{
    let value = html_escape(dest);
    proof {
        reveal_strlit("{{DEST_VALUE}}");
    }
    replace_all(template, "{{DEST_VALUE}}", value.as_str())
}

/// `checked` when `on`, empty otherwise.
pub open spec fn checked_text(on: bool) -> Seq<char> {
    if on {
        "checked"@
    } else {
        ""@
    }
}

/// The settings page: `template` with the two checkboxes ticked as the
/// configuration says and the two format pickers filled in, the current
/// format of each selected.
pub open spec fn settings_html(
    template: Seq<char>,
    audio_export: bool,
    thumbnail_export: bool,
    video_formats: Seq<Seq<char>>,
    video_format: Seq<char>,
    audio_formats: Seq<Seq<char>>,
    audio_format: Seq<char>,
) -> Seq<char> {
    let t1 = replaced(template, "{{AUDIO_CHECKED}}"@, checked_text(audio_export));
    let t2 = replaced(t1, "{{THUMB_CHECKED}}"@, checked_text(thumbnail_export));
    let t3 = replaced(t2, "{{VIDEO_OPTIONS}}"@, options_html(video_formats, video_format));
    replaced(t3, "{{AUDIO_OPTIONS}}"@, options_html(audio_formats, audio_format))
}

/// Text holding no match of `pat` is left as it is by replacing `pat`.
pub proof fn lemma_replace_absent(s: Seq<char>, pat: Seq<char>, with: Seq<char>)
    requires
        pat.len() > 0,
        !crate::text::occurs_in(s, pat),
    ensures
        replaced(s, pat, with) == s,
    decreases s.len(),
{
    if s.len() > 0 {
        assert(!occurs_at(s, pat, 0));
        assert forall|i: int| !occurs_at(s.drop_first(), pat, i) by {
            if occurs_at(s.drop_first(), pat, i) {
                assert(s.subrange(i + 1, i + 1 + pat.len()) == s.drop_first().subrange(i, i + pat.len()));
                assert(occurs_at(s, pat, i + 1));
            }
        }
        lemma_replace_absent(s.drop_first(), pat, with);
        assert(seq![s[0]] + s.drop_first() == s);
    }
}

/// A text that is exactly `pat` becomes `with`.
pub proof fn lemma_replace_whole(pat: Seq<char>, with: Seq<char>)
    requires
        pat.len() > 0,
    ensures
        replaced(pat, pat, with) == with,
{
    assert(pat.subrange(0, pat.len() as int) == pat);
    assert(pat.skip(pat.len() as int) == Seq::<char>::empty());
    assert(replaced(Seq::<char>::empty(), pat, with) == Seq::<char>::empty());
    assert(occurs_at(pat, pat, 0));
    assert(with + Seq::<char>::empty() == with);
}

/// Text that never holds the first character of `pat` is left as it is by
/// replacing `pat`.
pub proof fn lemma_replace_without_first_char(t: Seq<char>, pat: Seq<char>, with: Seq<char>)
    requires
        pat.len() > 0,
        forall|i: int| 0 <= i < t.len() ==> t[i] != pat[0],
    ensures
        replaced(t, pat, with) == t,
{
    assert forall|i: int| !occurs_at(t, pat, i) by {
        if occurs_at(t, pat, i) {
            assert(t.subrange(i, i + pat.len())[0] == t[i]);
        }
    }
    lemma_replace_absent(t, pat, with);
}

proof fn lemma_checked_without_brace(on: bool)
    ensures
        forall|i: int| 0 <= i < checked_text(on).len() ==> checked_text(on)[i] != '{',
{
    reveal_strlit("checked");
    reveal_strlit("");
}

/// The thumbnail checkbox is ticked exactly when thumbnail export is on and
/// the audio checkbox exactly when audio export is on, each whatever the
/// other settings are; and a template without `{{AUDIO_CHECKED}}` renders
/// the same whatever audio export is.
pub proof fn lemma_settings_checkboxes(
    audio_export: bool,
    thumbnail_export: bool,
    video_formats: Seq<Seq<char>>,
    video_format: Seq<char>,
    audio_formats: Seq<Seq<char>>,
    audio_format: Seq<char>,
    template: Seq<char>,
    other_audio_export: bool,
)
    ensures
        settings_html("{{THUMB_CHECKED}}"@, audio_export, thumbnail_export, video_formats, video_format, audio_formats, audio_format)
            == (if thumbnail_export { "checked"@ } else { Seq::<char>::empty() }),
        settings_html("{{AUDIO_CHECKED}}"@, audio_export, thumbnail_export, video_formats, video_format, audio_formats, audio_format)
            == (if audio_export { "checked"@ } else { Seq::<char>::empty() }),
        !crate::text::occurs_in(template, "{{AUDIO_CHECKED}}"@) ==> settings_html(
            template, audio_export, thumbnail_export, video_formats, video_format, audio_formats, audio_format)
            == settings_html(template, other_audio_export, thumbnail_export, video_formats, video_format, audio_formats, audio_format),
{
    reveal_strlit("{{AUDIO_CHECKED}}");
    reveal_strlit("{{THUMB_CHECKED}}");
    reveal_strlit("{{VIDEO_OPTIONS}}");
    reveal_strlit("{{AUDIO_OPTIONS}}");
    reveal_strlit("");
    let audio_p = "{{AUDIO_CHECKED}}"@;
    let thumb_p = "{{THUMB_CHECKED}}"@;
    let video_o = "{{VIDEO_OPTIONS}}"@;
    let audio_o = "{{AUDIO_OPTIONS}}"@;
    let vo = options_html(video_formats, video_format);
    let ao = options_html(audio_formats, audio_format);
    lemma_checked_without_brace(audio_export);
    lemma_checked_without_brace(thumbnail_export);
    // One placeholder is no match of another.
    assert forall|a: Seq<char>, b: Seq<char>, w: Seq<char>|
        a.len() == 17 && b.len() == 17 && a[2] != b[2] implies #[trigger] replaced(a, b, w) == a by {
        assert forall|i: int| !occurs_at(a, b, i) by {
            if occurs_at(a, b, i) {
                assert(i == 0);
                assert(a.subrange(0, 17)[2] == a[2]);
            }
        }
        lemma_replace_absent(a, b, w);
    }
    lemma_replace_whole(thumb_p, checked_text(thumbnail_export));
    lemma_replace_whole(audio_p, checked_text(audio_export));
    assert(replaced(thumb_p, audio_p, checked_text(audio_export)) == thumb_p);
    lemma_replace_without_first_char(checked_text(thumbnail_export), video_o, vo);
    lemma_replace_without_first_char(checked_text(thumbnail_export), audio_o, ao);
    lemma_replace_without_first_char(checked_text(audio_export), thumb_p, checked_text(thumbnail_export));
    lemma_replace_without_first_char(checked_text(audio_export), video_o, vo);
    lemma_replace_without_first_char(checked_text(audio_export), audio_o, ao);
    assert(replaced(thumb_p, video_o, vo) == thumb_p);
    assert(replaced(thumb_p, audio_o, ao) == thumb_p);
    if !crate::text::occurs_in(template, audio_p) {
        lemma_replace_absent(template, audio_p, checked_text(audio_export));
        lemma_replace_absent(template, audio_p, checked_text(other_audio_export));
    }
}

fn checked_str(on: bool) -> (r: &'static str)
    ensures
        r@ == checked_text(on),
{
    if on {
        "checked"
    } else {
        ""
    }
}

/// Fills in the settings page template from the configuration.
pub fn render_settings_page(template: &str, config: &crate::config::Config) -> (r: String)
    ensures
        r@ == settings_html(
            template@,
            config.audio_export,
            config.thumbnail_export,
            crate::config::spec_video_formats(),
            config.video_format@,
            crate::config::spec_audio_formats(),
            config.audio_format@,
        ),
{
    proof {
        reveal_strlit("{{AUDIO_CHECKED}}");
        reveal_strlit("{{THUMB_CHECKED}}");
        reveal_strlit("{{VIDEO_OPTIONS}}");
        reveal_strlit("{{AUDIO_OPTIONS}}");
    }
    let t1 = replace_all(template, "{{AUDIO_CHECKED}}", checked_str(config.audio_export));
    let t2 = replace_all(t1.as_str(), "{{THUMB_CHECKED}}", checked_str(config.thumbnail_export));
    let video = crate::config::video_formats();
    let video_options = options(video.as_slice(), config.video_format.as_str());
    let t3 = replace_all(t2.as_str(), "{{VIDEO_OPTIONS}}", video_options.as_str());
    let audio = crate::config::audio_formats();
    let audio_options = options(audio.as_slice(), config.audio_format.as_str());
    replace_all(t3.as_str(), "{{AUDIO_OPTIONS}}", audio_options.as_str())
}

} // verus!
