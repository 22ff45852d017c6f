//! The operators' dashboard.
use vstd::prelude::*;

use crate::clickhouse::sharding;
use crate::solparq::archive;
use crate::solparq::archive::{ArchiveKind, Config};
use crate::text;

verus! {

/// The slots of the database, as last seen.
#[derive(Debug, Clone, Copy)]
pub struct DbSlots {
    pub slots_available: u64,
    pub earliest_slot: u64,
    pub latest_slot: u64,
}

/// Something that happened to an archive.
#[derive(Debug)]
pub struct ArchiveEvent {
    pub timestamp_unix: u64,
    pub archive_kind: String,
    pub outcome: String,
    pub archive_name: Option<String>,
    pub reason: Option<String>,
}

/// What operators see of the archiver.
#[derive(Debug)]
pub struct PublicStatus {
    pub last_error: Option<String>,
    pub db_slots: Option<DbSlots>,
    pub recent_events: Vec<ArchiveEvent>,
    pub archives_created: u64,
    pub archives_skipped: u64,
    pub archive_errors: u64,
    pub last_run_at_unix: Option<u64>,
    pub last_success_at_unix: Option<u64>,
}

impl PublicStatus {
    /// Whether all is well: the last check did not fail.
    pub fn is_healthy(&self) -> (r: bool)
        ensures
            r == (self.last_error is None),
    {
        self.last_error.is_none()
    }
}

/// The text of a moment in UTC: `chrono::DateTime::from_timestamp` of some seconds since 1970,
/// where it is defined, written with the format `%Y-%m-%d %H:%M:%S UTC`.
pub uninterp spec fn utc_text(secs: i64) -> Option<Seq<char>>;

/// `chrono::DateTime::from_timestamp` and `DateTime::format`: the result depends on the seconds
/// alone.
#[verifier::external_body]
fn utc_string(secs: i64) -> (r: Option<String>)
    ensures
        sharding::opt_text(r) == utc_text(secs),
{
    match chrono::DateTime::<chrono::Utc>::from_timestamp(secs, 0) {
        Some(moment) => Some(moment.format("%Y-%m-%d %H:%M:%S UTC").to_string()),
        None => None,
    }
}

/// The text of an optional moment.
pub open spec fn timestamp_text(timestamp_unix: Option<u64>) -> Seq<char> {
    match timestamp_unix {
        None => "never"@,
        Some(secs) => moment_text(utc_text(secs as i64)),
    }
}

/// The text of a moment that may not be defined.
pub open spec fn moment_text(moment: Option<Seq<char>>) -> Seq<char> {
    match moment {
        Some(t) => t,
        None => "invalid timestamp"@,
    }
}

/// Writes a moment that may not be defined.
pub fn moment_or_invalid(moment: Option<String>) -> (r: String)
    ensures
        r@ == moment_text(sharding::opt_text(moment)),
{
    match moment {
        Some(t) => t,
        None => "invalid timestamp".to_owned(),
    }
}

/// Writes an optional moment in UTC.
pub fn format_utc_timestamp(timestamp_unix: Option<u64>) -> (r: String)
    ensures
        r@ == timestamp_text(timestamp_unix),
{
    match timestamp_unix {
        None => "never".to_owned(),
        Some(secs) => moment_or_invalid(utc_string(secs as i64)),
    }
}

/// Digits in groups of three, with commas between them.
pub open spec fn grouped(digits: Seq<char>) -> Seq<char>
    decreases digits.len(),
{
    if digits.len() <= 3 {
        digits
    } else {
        grouped(digits.take(digits.len() - 3)).push(',') + digits.skip(digits.len() - 3)
    }
}

fn group_prefix(digits: &Vec<char>, to: usize) -> (r: String)
    requires
        to <= digits.len(),
    ensures
        r@ == grouped(digits@.take(to as int)),
    decreases to,
{
    if to <= 3 {
        proof {
            assert(digits@.subrange(0, to as int) =~= digits@.take(to as int));
        }
        text::from_chars(digits, 0, to)
    } else {
        let mut r = group_prefix(digits, to - 3);
        r.push(',');
        r.append(text::from_chars(digits, to - 3, to).as_str());
        proof {
            let s = digits@.take(to as int);
            assert(s.take(to - 3) =~= digits@.take(to - 3));
            assert(s.skip(to - 3) =~= digits@.subrange(to - 3, to as int));
        }
        r
    }
}

/// Writes a number with its digits in groups of three.
pub fn format_u64(value: u64) -> (r: String)
    ensures
        r@ == grouped(text::dec(value as nat)),
{
    let digits = text::to_chars(text::dec_string(value).as_str());
    proof {
        assert(digits@.take(digits.len() as int) =~= digits@);
    }
    group_prefix(&digits, digits.len())
}

/// Without the commas, a grouped number is its digits.
pub proof fn law_grouping_keeps_digits(digits: Seq<char>)
    requires
        text::all_digits(digits),
    ensures
        grouped(digits).filter(|c: char| c != ',') == digits,
    decreases digits.len(),
{
    let p = |c: char| c != ',';
    if digits.len() <= 3 {
        lemma_filter_digits(digits);
    } else {
        let head = digits.take(digits.len() - 3);
        let tail = digits.skip(digits.len() - 3);
        assert(text::all_digits(head)) by {
            assert forall|i: int| 0 <= i < head.len() implies text::is_digit(#[trigger] head[i]) by {
                assert(text::is_digit(digits[i]));
            }
        }
        assert(text::all_digits(tail)) by {
            assert forall|i: int| 0 <= i < tail.len() implies text::is_digit(#[trigger] tail[i]) by {
                assert(text::is_digit(digits[i + digits.len() - 3]));
            }
        }
        law_grouping_keeps_digits(head);
        lemma_filter_digits(tail);
        let g = grouped(head);
        lemma_filter_join(g.push(','), tail, p);
        assert(g.push(',').drop_last() =~= g);
        assert(g.push(',').filter(p) == g.filter(p)) by {
            reveal(Seq::filter);
        }
        assert(head + tail =~= digits);
    }
}

proof fn lemma_filter_join(a: Seq<char>, b: Seq<char>, p: spec_fn(char) -> bool)
    ensures
        (a + b).filter(p) == a.filter(p) + b.filter(p),
    decreases b.len(),
{
    reveal(Seq::filter);
    if b.len() == 0 {
        assert(a + b =~= a);
        assert(a.filter(p) + b.filter(p) =~= a.filter(p));
    } else {
        lemma_filter_join(a, b.drop_last(), p);
        assert((a + b).drop_last() =~= a + b.drop_last());
        assert((a + b).last() == b.last());
        assert((a + b).filter(p) =~= a.filter(p) + b.filter(p));
    }
}

proof fn lemma_filter_digits(s: Seq<char>)
    requires
        text::all_digits(s),
    ensures
        s.filter(|c: char| c != ',') == s,
    decreases s.len(),
{
    reveal(Seq::filter);
    if s.len() > 0 {
        let init = s.drop_last();
        assert(text::is_digit(s[s.len() - 1]));
        assert forall|i: int| 0 <= i < init.len() implies text::is_digit(#[trigger] init[i]) by {
            assert(text::is_digit(s[i]));
        }
        lemma_filter_digits(init);
        assert(init.push(s.last()) =~= s);
    }
}

/// What stands for a character in HTML text.
pub open spec fn html_char(c: char) -> Seq<char> {
    if c == '&' {
        "&amp;"@
    } else if c == '<' {
        "&lt;"@
    } else if c == '>' {
        "&gt;"@
    } else if c == '"' {
        "&quot;"@
    } else if c == '\'' {
        "&#39;"@
    } else {
        seq![c]
    }
}

/// A text as it stands in HTML.
pub open spec fn html_escaped(s: Seq<char>) -> Seq<char>
    decreases s.len(),
{
    if s.len() == 0 {
        s
    } else {
        html_escaped(s.drop_last()) + html_char(s.last())
    }
}

/// Writes a text as it stands in HTML.
pub fn html_escape(value: &str) -> (r: String)
    ensures
        r@ == html_escaped(value@),
{
    let chars = text::to_chars(value);
    let mut r = String::new();
    let mut i: usize = 0;
    proof {
        assert(value@.take(0) =~= Seq::<char>::empty());
    }
    while i < chars.len()
        invariant
            i <= chars.len(),
            chars@ == value@,
            r@ == html_escaped(value@.take(i as int)),
        decreases chars.len() - i,
    {
        let c = chars[i];
        proof {
            assert(value@.take(i + 1).drop_last() =~= value@.take(i as int));
        }
        let ghost before = r@;
        if c == '&' {
            r.append("&amp;");
        } else if c == '<' {
            r.append("&lt;");
        } else if c == '>' {
            r.append("&gt;");
        } else if c == '"' {
            r.append("&quot;");
        } else if c == '\'' {
            r.append("&#39;");
        } else {
            r.push(c);
            proof {
                assert(before.push(c) =~= before + seq![c]);
            }
        }
        i += 1;
    }
    proof {
        assert(value@.take(value@.len() as int) =~= value@);
    }
    r
}

/// A text as it stands in HTML opens and closes no tag and ends no attribute.
pub proof fn law_escaped_text_has_no_markup(s: Seq<char>)
    ensures
        !html_escaped(s).contains('<'),
        !html_escaped(s).contains('>'),
        !html_escaped(s).contains('"'),
        !html_escaped(s).contains('\''),
    decreases s.len(),
{
    if s.len() > 0 {
        law_escaped_text_has_no_markup(s.drop_last());
        reveal_strlit("&amp;");
        reveal_strlit("&lt;");
        reveal_strlit("&gt;");
        reveal_strlit("&quot;");
        reveal_strlit("&#39;");
        let a = html_escaped(s.drop_last());
        let b = html_char(s.last());
        assert forall|c: char| !a.contains(c) && !b.contains(c) implies !(#[trigger] (a
            + b).contains(c)) by {
            if (a + b).contains(c) {
                let k = choose|k: int| 0 <= k < (a + b).len() && (a + b)[k] == c;
                if k < a.len() {
                    assert(a[k] == c);
                } else {
                    assert(b[k - a.len()] == c);
                }
            }
        }
    }
}

/// The color of an outcome.
pub open spec fn color(outcome: Seq<char>) -> Seq<char> {
    if outcome == "created"@ {
        "#138a5b"@
    } else if outcome == "skipped"@ {
        "#b7791f"@
    } else if outcome == "error"@ {
        "#c2413f"@
    } else {
        "#2f6fed"@
    }
}

/// The color of an outcome.
pub fn event_color(outcome: &str) -> (r: &'static str)
    ensures
        r@ == color(outcome@),
{
    if text::text_eq(outcome, "created") {
        "#138a5b"
    } else if text::text_eq(outcome, "skipped") {
        "#b7791f"
    } else if text::text_eq(outcome, "error") {
        "#c2413f"
    } else {
        "#2f6fed"
    }
}

/// The height of an outcome on the timeline.
pub open spec fn height(outcome: Seq<char>) -> Seq<char> {
    if outcome == "created"@ {
        "36.0"@
    } else if outcome == "skipped"@ {
        "74.0"@
    } else if outcome == "error"@ {
        "112.0"@
    } else {
        "94.0"@
    }
}

fn event_height(outcome: &str) -> (r: &'static str)
    ensures
        r@ == height(outcome@),
{
    if text::text_eq(outcome, "created") {
        "36.0"
    } else if text::text_eq(outcome, "skipped") {
        "74.0"
    } else if text::text_eq(outcome, "error") {
        "112.0"
    } else {
        "94.0"
    }
}

/// What an event is about: its archive, or else its reason, or else `otherwise`.
pub open spec fn event_detail(event: ArchiveEvent, otherwise: Seq<char>) -> Seq<char> {
    match (sharding::opt_text(event.archive_name), sharding::opt_text(event.reason)) {
        (Some(name), _) => name,
        (None, Some(reason)) => reason,
        (None, None) => otherwise,
    }
}

fn detail_of<'a>(event: &'a ArchiveEvent, otherwise: &'a str) -> (r: &'a str)
    ensures
        r@ == event_detail(*event, otherwise@),
{
    match &event.archive_name {
        Some(name) => name.as_str(),
        None => match &event.reason {
            Some(reason) => reason.as_str(),
            None => otherwise,
        },
    }
}

/// The points of the timeline.
pub open spec fn point_texts(events: Seq<ArchiveEvent>, xs: Seq<Seq<char>>) -> Seq<Seq<char>> {
    Seq::new(events.len(), |i: int| xs[i] + ","@ + height(events[i].outcome@))
}

/// The mark of an event on the timeline.
pub open spec fn circle(event: ArchiveEvent, x: Seq<char>) -> Seq<char> {
    ("<circle cx=\""@ + x + "\" cy=\""@ + height(event.outcome@) + "\" r=\"6\" fill=\""@ + color(event.outcome@) + "\"><title>"@ + html_escaped(timestamp_text(Some(event.timestamp_unix))) + " "@ + html_escaped(event.archive_kind@) + " "@ + html_escaped(event_detail(event, event.outcome@)) + "</title></circle>"@)
}

/// The marks of the events on the timeline.
pub open spec fn circle_texts(events: Seq<ArchiveEvent>, xs: Seq<Seq<char>>) -> Seq<char>
    decreases events.len(),
{
    if events.len() == 0 {
        Seq::empty()
    } else {
        circle_texts(events.drop_last(), xs) + circle(events.last(), xs[events.len() - 1])
    }
}

/// The timeline of some events, at the given places from left to right.
pub open spec fn timeline_text(events: Seq<ArchiveEvent>, xs: Seq<Seq<char>>) -> Seq<char> {
    if events.len() == 0 {
        "<p>No archive events yet.</p>"@
    } else {
        ("<svg viewBox=\"0 0 760 150\" role=\"img\" aria-label=\"Archive event timeline\"><line x1=\"34\" y1=\"36\" x2=\"726\" y2=\"36\" stroke=\"#d9e1ec\"/><line x1=\"34\" y1=\"74\" x2=\"726\" y2=\"74\" stroke=\"#d9e1ec\"/><line x1=\"34\" y1=\"112\" x2=\"726\" y2=\"112\" stroke=\"#d9e1ec\"/><text x=\"0\" y=\"40\" font-size=\"11\" fill=\"#637083\">ok</text><text x=\"0\" y=\"78\" font-size=\"11\" fill=\"#637083\">skip</text><text x=\"0\" y=\"116\" font-size=\"11\" fill=\"#637083\">err</text><polyline points=\""@ + text::join(point_texts(events, xs), " "@) + "\" fill=\"none\" stroke=\"#2f6fed\" stroke-width=\"2\" opacity=\"0.45\"/>"@ + circle_texts(events, xs) + "</svg>"@)
    }
}

/// Draws the timeline of some events, at the given places from left to right.
pub fn render_timeline(events: &[ArchiveEvent], xs: &Vec<String>) -> (r: String)
    requires
        xs@.len() == events@.len(),
    ensures
        r@ == timeline_text(events@, text::texts(xs@)),
{
    if events.len() == 0 {
        return "<p>No archive events yet.</p>".to_owned();
    }
    let ghost places = text::texts(xs@);
    let mut points: Vec<String> = Vec::new();
    let mut circles = String::new();
    let mut i: usize = 0;
    proof {
        assert(events@.take(0) =~= Seq::<ArchiveEvent>::empty());
    }
    while i < events.len()
        invariant
            i <= events@.len(),
            xs@.len() == events@.len(),
            places == text::texts(xs@),
            text::texts(points@) == point_texts(events@, places).take(i as int),
            circles@ == circle_texts(events@.take(i as int), places),
        decreases events@.len() - i,
    {
        let event = &events[i];
        let x = xs[i].as_str();
        let y = event_height(event.outcome.as_str());
        let mut point = x.to_owned();
        point.append(",");
        point.append(y);
        text::push_text(&mut points, point);
        let when = format_utc_timestamp(Some(event.timestamp_unix));
        let mark = {
            let mut m = "<circle cx=\"".to_owned();
            m.append(x);
            m.append("\" cy=\"");
            m.append(y);
            m.append("\" r=\"6\" fill=\"");
            m.append(event_color(event.outcome.as_str()));
            m.append("\"><title>");
            m.append(html_escape(when.as_str()).as_str());
            m.append(" ");
            m.append(html_escape(event.archive_kind.as_str()).as_str());
            m.append(" ");
            m.append(html_escape(detail_of(event, event.outcome.as_str())).as_str());
            m.append("</title></circle>");
            m
        };
        circles.append(mark.as_str());
        proof {
            let all = point_texts(events@, places);
            assert(places[i as int] == x@);
            assert(all.take(i + 1) =~= all.take(i as int).push(all[i as int]));
            assert(events@.take(i + 1).drop_last() =~= events@.take(i as int));
        }
        i += 1;
    }
    proof {
        let all = point_texts(events@, places);
        assert(all.take(all.len() as int) =~= all);
        assert(events@.take(events@.len() as int) =~= events@);
    }
    let mut m = "<svg viewBox=\"0 0 760 150\" role=\"img\" aria-label=\"Archive event timeline\"><line x1=\"34\" y1=\"36\" x2=\"726\" y2=\"36\" stroke=\"#d9e1ec\"/><line x1=\"34\" y1=\"74\" x2=\"726\" y2=\"74\" stroke=\"#d9e1ec\"/><line x1=\"34\" y1=\"112\" x2=\"726\" y2=\"112\" stroke=\"#d9e1ec\"/><text x=\"0\" y=\"40\" font-size=\"11\" fill=\"#637083\">ok</text><text x=\"0\" y=\"78\" font-size=\"11\" fill=\"#637083\">skip</text><text x=\"0\" y=\"116\" font-size=\"11\" fill=\"#637083\">err</text><polyline points=\"".to_owned();
    m.append(text::join_texts(&points, " ").as_str());
    m.append("\" fill=\"none\" stroke=\"#2f6fed\" stroke-width=\"2\" opacity=\"0.45\"/>");
    m.append(circles.as_str());
    m.append("</svg>");
    m
}

/// The row of an event.
pub open spec fn event_row(event: ArchiveEvent) -> Seq<char> {
    ("<div class=\"event\"><div>"@ + html_escaped(timestamp_text(Some(event.timestamp_unix))) + "</div><div><span class=\"badge "@ + html_escaped(event.outcome@) + "\">"@ + html_escaped(event.outcome@) + "</span></div><div><strong>"@ + html_escaped(event.archive_kind@) + "</strong> "@ + html_escaped(event_detail(event, Seq::empty())) + "</div></div>"@)
}

/// The rows of the last `n` events, the latest first.
pub open spec fn latest_rows(events: Seq<ArchiveEvent>, n: nat) -> Seq<char>
    decreases n,
{
    if n == 0 || events.len() == 0 {
        Seq::empty()
    } else {
        event_row(events.last()) + latest_rows(events.drop_last(), (n - 1) as nat)
    }
}

/// The rows of the last twelve events, the latest first.
pub open spec fn event_rows_text(events: Seq<ArchiveEvent>) -> Seq<char> {
    if events.len() == 0 {
        "<p>No recent archive events.</p>"@
    } else {
        latest_rows(events, 12)
    }
}

/// Writes the rows of the last twelve events, the latest first.
pub fn render_event_rows(events: &[ArchiveEvent]) -> (r: String)
    ensures
        r@ == event_rows_text(events@),
{
    if events.len() == 0 {
        return "<p>No recent archive events.</p>".to_owned();
    }
    let mut r = String::new();
    let mut left: usize = events.len();
    let mut n: usize = 12;
    proof {
        assert(events@.take(left as int) =~= events@);
        assert(r@ + latest_rows(events@, 12) =~= latest_rows(events@, 12));
    }
    while left > 0 && n > 0
        invariant
            left <= events@.len(),
            r@ + latest_rows(events@.take(left as int), n as nat) == latest_rows(events@, 12),
        decreases n,
    {
        let event = &events[left - 1];
        let when = format_utc_timestamp(Some(event.timestamp_unix));
        let empty = String::new();
        let row = {
            let mut m = "<div class=\"event\"><div>".to_owned();
            m.append(html_escape(when.as_str()).as_str());
            m.append("</div><div><span class=\"badge ");
            m.append(html_escape(event.outcome.as_str()).as_str());
            m.append("\">");
            m.append(html_escape(event.outcome.as_str()).as_str());
            m.append("</span></div><div><strong>");
            m.append(html_escape(event.archive_kind.as_str()).as_str());
            m.append("</strong> ");
            m.append(html_escape(detail_of(event, empty.as_str())).as_str());
            m.append("</div></div>");
            m
        };
        let ghost before = r@;
        r.append(row.as_str());
        proof {
            let s = events@.take(left as int);
            assert(empty@ =~= Seq::<char>::empty());
            assert(s.drop_last() =~= events@.take(left - 1));
            assert(row@ == event_row(*event));
            assert(r@ + latest_rows(s.drop_last(), (n - 1) as nat) =~= before + latest_rows(
                s,
                n as nat,
            ));
        }
        left -= 1;
        n -= 1;
    }
    proof {
        assert(latest_rows(events@.take(left as int), n as nat) =~= Seq::<char>::empty());
        assert(r@ =~= latest_rows(events@, 12));
    }
    r
}

/// The kinds of archives, as texts.
pub open spec fn kind_texts(kinds: Seq<ArchiveKind>) -> Seq<Seq<char>> {
    Seq::new(kinds.len(), |i: int| kinds[i].display())
}

fn kind_strings(kinds: &Vec<ArchiveKind>) -> (r: Vec<String>)
    ensures
        text::texts(r@) == kind_texts(kinds@),
{
    let mut r: Vec<String> = Vec::new();
    let mut i: usize = 0;
    while i < kinds.len()
        invariant
            i <= kinds.len(),
            text::texts(r@) == kind_texts(kinds@).take(i as int),
        decreases kinds.len() - i,
    {
        text::push_text(&mut r, kinds[i].to_text());
        i += 1;
        proof {
            let all = kind_texts(kinds@);
            assert(all.take(i as int) =~= all.take(i - 1).push(all[i - 1]));
        }
    }
    proof {
        let all = kind_texts(kinds@);
        assert(all.take(all.len() as int) =~= all);
    }
    r
}

/// The label of the archiver's health.
pub open spec fn health_label(status: PublicStatus) -> Seq<char> {
    if status.last_error is None {
        "Healthy"@
    } else {
        "Needs attention"@
    }
}

/// The style of the archiver's health.
pub open spec fn health_class(status: PublicStatus) -> Seq<char> {
    if status.last_error is None {
        "ok"@
    } else {
        "bad"@
    }
}

/// The slots of the database, as text.
pub open spec fn db_slots_text(status: PublicStatus) -> Seq<char> {
    match status.db_slots {
        Some(slots) => (grouped(text::dec(slots.slots_available as nat)) + " slots ("@ + grouped(text::dec(slots.earliest_slot as nat)) + " to "@ + grouped(text::dec(slots.latest_slot as nat)) + ")"@),
        None => "unknown"@,
    }
}

/// The last error, as text.
pub open spec fn last_error_text(status: PublicStatus) -> Seq<char> {
    match sharding::opt_text(status.last_error) {
        Some(e) => e,
        None => "none"@,
    }
}

/// The head of the dashboard.
pub open spec fn page_head() -> Seq<char> {
    ("<!doctype html>
<html>
<head>
  <meta charset=\"utf-8\">
  <meta name=\"viewport\" content=\"width=device-width, initial-scale=1\">
  <meta http-equiv=\"refresh\" content=\"30\">
  <title>Solparq Ops</title>
  <style>
    :root {
      color-scheme: light;
      --bg: #f7f9fc;
      --panel: #ffffff;
      --ink: #18202f;
      --muted: #637083;
      --line: #d9e1ec;
      --blue: #2f6fed;
      --green: #138a5b;
      --amber: #b7791f;
      --red: #c2413f;
    }
    * { box-sizing: border-box; }
    body { margin: 0; background: var(--bg); color: var(--ink); font-family: Inter, ui-sans-serif, system-ui, -apple-system, BlinkMacSystemFont, \"Segoe UI\", sans-serif; }
    main { max-width: 1180px; margin: 0 auto; padding: 28px; }
    header { display: flex; justify-content: space-between; gap: 20px; align-items: flex-start; margin-bottom: 24px; }
    h1 { margin: 0 0 6px; font-size: 28px; font-weight: 720; }
    h2 { margin: 0 0 14px; font-size: 17px; font-weight: 680; }
    p { margin: 0; color: var(--muted); }
    code { background: #eef3f8; border: 1px solid var(--line); padding: 2px 6px; border-radius: 5px; }
    .pill { display: inline-flex; align-items: center; gap: 8px; padding: 8px 12px; border-radius: 999px; font-weight: 650; background: var(--panel); border: 1px solid var(--line); }
    .pill.ok { color: var(--green); }
    .pill.bad { color: var(--red); }
    .dot { width: 9px; height: 9px; border-radius: 50%; background: currentColor; }
    .grid { display: grid; gap: 14px; grid-template-columns: repeat(4, minmax(0, 1fr)); margin-bottom: 18px; }
    .metric, section { background: var(--panel); border: 1px solid var(--line); border-radius: 8px; box-shadow: 0 8px 22px rgba(24, 32, 47, .06); }
    .metric { padding: 16px; min-height: 92px; }
    .label { color: var(--muted); font-size: 13px; margin-bottom: 7px; }
    .value { font-size: 23px; font-weight: 720; overflow-wrap: anywhere; }
    section { padding: 18px; margin-bottom: 18px; }
    .two { display: grid; gap: 18px; grid-template-columns: minmax(0, 1.2fr) minmax(320px, .8fr); }
    table { width: 100%; border-collapse: collapse; }
    th, td { padding: 10px 8px; border-bottom: 1px solid var(--line); text-align: left; vertical-align: top; }
    th { width: 210px; color: var(--muted); font-weight: 620; }
    tr:last-child th, tr:last-child td { border-bottom: 0; }
    .timeline svg { width: 100%; height: auto; display: block; }
    .events { margin-top: 12px; max-height: 260px; overflow: auto; border-top: 1px solid var(--line); }
    .event { display: grid; grid-template-columns: 164px 78px 1fr; gap: 10px; padding: 10px 0; border-bottom: 1px solid var(--line); font-size: 14px; }
    .event:last-child { border-bottom: 0; }
    .badge { display: inline-flex; justify-content: center; border-radius: 999px; padding: 3px 8px; font-size: 12px; font-weight: 700; color: #fff; }
    .created { background: var(--green); }
    .skipped { background: var(--amber); }
    .error { background: var(--red); }
    .checking { background: var(--blue); }
    @media (max-width: 860px) {
      main { padding: 18px; }
      header, .two { display: block; }
      .grid { grid-template-columns: repeat(2, minmax(0, 1fr)); }
      .pill { margin-top: 14px; }
      .event { grid-template-columns: 1fr; }
      th, td { display: block; width: 100%; padding-left: 0; padding-right: 0; }
    }
  </style>
</head>
"@)
}

/// The cards and the timeline of the dashboard.
pub open spec fn page_cards(status: PublicStatus, xs: Seq<Seq<char>>) -> Seq<char> {
    ("<body>
  <main>
    <header>
      <div>
        <h1>Solparq Ops</h1>
        <p>Auto-refreshes every 30 seconds</p>
      </div>
      <div class=\"pill "@ + health_class(status) + "\"><span class=\"dot\"></span>"@ + health_label(status) + "</div>
    </header>

    <div class=\"grid\">
      <div class=\"metric\"><div class=\"label\">Slots available</div><div class=\"value\">"@ + html_escaped(db_slots_text(status)) + "</div></div>
      <div class=\"metric\"><div class=\"label\">Archives created</div><div class=\"value\">"@ + grouped(text::dec(status.archives_created as nat)) + "</div></div>
      <div class=\"metric\"><div class=\"label\">Last run</div><div class=\"value\">"@ + html_escaped(timestamp_text(status.last_run_at_unix)) + "</div></div>
      <div class=\"metric\"><div class=\"label\">Last success</div><div class=\"value\">"@ + html_escaped(timestamp_text(status.last_success_at_unix)) + "</div></div>
    </div>

    <div class=\"two\">
      <section>
        <h2>Archive timeline</h2>
        <div class=\"timeline\">"@ + timeline_text(status.recent_events@, xs) + "</div>
        <div class=\"events\">"@ + event_rows_text(status.recent_events@) + "</div>
      </section>
"@)
}

/// The settings on the dashboard.
pub open spec fn page_settings(config: Config, status: PublicStatus) -> Seq<char> {
    ("      <section>
        <h2>Startup settings</h2>
        <table>
          <tr><th>Archive types</th><td>"@ + html_escaped(text::join(kind_texts(config.archive_kinds@), ", "@)) + "</td></tr>
          <tr><th>Location</th><td>"@ + html_escaped(config.archive_location@) + "</td></tr>
          <tr><th>Output</th><td><code>"@ + html_escaped(config.output_location@) + "</code></td></tr>
          <tr><th>Transactions table</th><td><code>"@ + html_escaped(config.transactions_table@) + "</code></td></tr>
          <tr><th>Blocks table</th><td><code>"@ + html_escaped(config.blocks_table@) + "</code></td></tr>
          <tr><th>Archives to keep</th><td>"@ + grouped(text::dec(config.archives_to_keep as nat)) + "</td></tr>
          <tr><th>Continue from last archive</th><td>"@ + archive::bool_text(config.continue_from_last_archive) + "</td></tr>
          <tr><th>Check interval</th><td>"@ + grouped(text::dec(config.archive_check_interval_secs as nat)) + " seconds</td></tr>
          <tr><th>Skipped</th><td>"@ + grouped(text::dec(status.archives_skipped as nat)) + "</td></tr>
          <tr><th>Errors</th><td>"@ + grouped(text::dec(status.archive_errors as nat)) + "</td></tr>
          <tr><th>Last error</th><td>"@ + html_escaped(last_error_text(status)) + "</td></tr>
        </table>
      </section>
    </div>
  </main>
</body>
</html>"@)
}

fn render_cards(status: &PublicStatus, xs: &Vec<String>) -> (r: String)
    requires
        xs@.len() == status.recent_events@.len(),
    ensures
        r@ == page_cards(*status, text::texts(xs@)),
{
    let health_label = if status.last_error.is_none() {
        "Healthy"
    } else {
        "Needs attention"
    };
    let health_class = if status.last_error.is_none() {
        "ok"
    } else {
        "bad"
    };
    let db_slots = match status.db_slots {
        Some(slots) => {
            let mut m = format_u64(slots.slots_available).as_str().to_owned();
            m.append(" slots (");
            m.append(format_u64(slots.earliest_slot).as_str());
            m.append(" to ");
            m.append(format_u64(slots.latest_slot).as_str());
            m.append(")");
            m
        },
        None => "unknown".to_owned(),
    };
    let timeline = render_timeline(&status.recent_events, xs);
    let event_rows = render_event_rows(&status.recent_events);
    let mut m = "<body>
  <main>
    <header>
      <div>
        <h1>Solparq Ops</h1>
        <p>Auto-refreshes every 30 seconds</p>
      </div>
      <div class=\"pill ".to_owned();
    m.append(health_class);
    m.append("\"><span class=\"dot\"></span>");
    m.append(health_label);
    m.append("</div>
    </header>

    <div class=\"grid\">
      <div class=\"metric\"><div class=\"label\">Slots available</div><div class=\"value\">");
    m.append(html_escape(db_slots.as_str()).as_str());
    m.append("</div></div>
      <div class=\"metric\"><div class=\"label\">Archives created</div><div class=\"value\">");
    m.append(format_u64(status.archives_created).as_str());
    m.append("</div></div>
      <div class=\"metric\"><div class=\"label\">Last run</div><div class=\"value\">");
    m.append(html_escape(format_utc_timestamp(status.last_run_at_unix).as_str()).as_str());
    m.append("</div></div>
      <div class=\"metric\"><div class=\"label\">Last success</div><div class=\"value\">");
    m.append(html_escape(format_utc_timestamp(status.last_success_at_unix).as_str()).as_str());
    m.append("</div></div>
    </div>

    <div class=\"two\">
      <section>
        <h2>Archive timeline</h2>
        <div class=\"timeline\">");
    m.append(timeline.as_str());
    m.append("</div>
        <div class=\"events\">");
    m.append(event_rows.as_str());
    m.append("</div>
      </section>
");
    m
}

fn render_settings(config: &Config, status: &PublicStatus) -> (r: String)
    ensures
        r@ == page_settings(*config, *status),
{
    let archive_types = text::join_texts(&kind_strings(&config.archive_kinds), ", ");
    let last_error = match &status.last_error {
        Some(e) => e.as_str(),
        None => "none",
    };
    let mut m = "      <section>
        <h2>Startup settings</h2>
        <table>
          <tr><th>Archive types</th><td>".to_owned();
    m.append(html_escape(archive_types.as_str()).as_str());
    m.append("</td></tr>
          <tr><th>Location</th><td>");
    m.append(html_escape(config.archive_location.as_str()).as_str());
    m.append("</td></tr>
          <tr><th>Output</th><td><code>");
    m.append(html_escape(config.output_location.as_str()).as_str());
    m.append("</code></td></tr>
          <tr><th>Transactions table</th><td><code>");
    m.append(html_escape(config.transactions_table.as_str()).as_str());
    m.append("</code></td></tr>
          <tr><th>Blocks table</th><td><code>");
    m.append(html_escape(config.blocks_table.as_str()).as_str());
    m.append("</code></td></tr>
          <tr><th>Archives to keep</th><td>");
    m.append(format_u64(config.archives_to_keep).as_str());
    m.append("</td></tr>
          <tr><th>Continue from last archive</th><td>");
    m.append(archive::bool_str(config.continue_from_last_archive));
    m.append("</td></tr>
          <tr><th>Check interval</th><td>");
    m.append(format_u64(config.archive_check_interval_secs).as_str());
    m.append(" seconds</td></tr>
          <tr><th>Skipped</th><td>");
    m.append(format_u64(status.archives_skipped).as_str());
    m.append("</td></tr>
          <tr><th>Errors</th><td>");
    m.append(format_u64(status.archive_errors).as_str());
    m.append("</td></tr>
          <tr><th>Last error</th><td>");
    m.append(html_escape(last_error).as_str());
    m.append("</td></tr>
        </table>
      </section>
    </div>
  </main>
</body>
</html>");
    m
}

/// Draws the dashboard. The places of the events on the timeline are given, from left to right.
pub fn render_dashboard(config: &Config, status: &PublicStatus, xs: &Vec<String>) -> (r: String)
    requires
        xs@.len() == status.recent_events@.len(),
    ensures
        r@ == page_head() + page_cards(*status, text::texts(xs@)) + page_settings(*config, *status),
{
    let mut page = "<!doctype html>
<html>
<head>
  <meta charset=\"utf-8\">
  <meta name=\"viewport\" content=\"width=device-width, initial-scale=1\">
  <meta http-equiv=\"refresh\" content=\"30\">
  <title>Solparq Ops</title>
  <style>
    :root {
      color-scheme: light;
      --bg: #f7f9fc;
      --panel: #ffffff;
      --ink: #18202f;
      --muted: #637083;
      --line: #d9e1ec;
      --blue: #2f6fed;
      --green: #138a5b;
      --amber: #b7791f;
      --red: #c2413f;
    }
    * { box-sizing: border-box; }
    body { margin: 0; background: var(--bg); color: var(--ink); font-family: Inter, ui-sans-serif, system-ui, -apple-system, BlinkMacSystemFont, \"Segoe UI\", sans-serif; }
    main { max-width: 1180px; margin: 0 auto; padding: 28px; }
    header { display: flex; justify-content: space-between; gap: 20px; align-items: flex-start; margin-bottom: 24px; }
    h1 { margin: 0 0 6px; font-size: 28px; font-weight: 720; }
    h2 { margin: 0 0 14px; font-size: 17px; font-weight: 680; }
    p { margin: 0; color: var(--muted); }
    code { background: #eef3f8; border: 1px solid var(--line); padding: 2px 6px; border-radius: 5px; }
    .pill { display: inline-flex; align-items: center; gap: 8px; padding: 8px 12px; border-radius: 999px; font-weight: 650; background: var(--panel); border: 1px solid var(--line); }
    .pill.ok { color: var(--green); }
    .pill.bad { color: var(--red); }
    .dot { width: 9px; height: 9px; border-radius: 50%; background: currentColor; }
    .grid { display: grid; gap: 14px; grid-template-columns: repeat(4, minmax(0, 1fr)); margin-bottom: 18px; }
    .metric, section { background: var(--panel); border: 1px solid var(--line); border-radius: 8px; box-shadow: 0 8px 22px rgba(24, 32, 47, .06); }
    .metric { padding: 16px; min-height: 92px; }
    .label { color: var(--muted); font-size: 13px; margin-bottom: 7px; }
    .value { font-size: 23px; font-weight: 720; overflow-wrap: anywhere; }
    section { padding: 18px; margin-bottom: 18px; }
    .two { display: grid; gap: 18px; grid-template-columns: minmax(0, 1.2fr) minmax(320px, .8fr); }
    table { width: 100%; border-collapse: collapse; }
    th, td { padding: 10px 8px; border-bottom: 1px solid var(--line); text-align: left; vertical-align: top; }
    th { width: 210px; color: var(--muted); font-weight: 620; }
    tr:last-child th, tr:last-child td { border-bottom: 0; }
    .timeline svg { width: 100%; height: auto; display: block; }
    .events { margin-top: 12px; max-height: 260px; overflow: auto; border-top: 1px solid var(--line); }
    .event { display: grid; grid-template-columns: 164px 78px 1fr; gap: 10px; padding: 10px 0; border-bottom: 1px solid var(--line); font-size: 14px; }
    .event:last-child { border-bottom: 0; }
    .badge { display: inline-flex; justify-content: center; border-radius: 999px; padding: 3px 8px; font-size: 12px; font-weight: 700; color: #fff; }
    .created { background: var(--green); }
    .skipped { background: var(--amber); }
    .error { background: var(--red); }
    .checking { background: var(--blue); }
    @media (max-width: 860px) {
      main { padding: 18px; }
      header, .two { display: block; }
      .grid { grid-template-columns: repeat(2, minmax(0, 1fr)); }
      .pill { margin-top: 14px; }
      .event { grid-template-columns: 1fr; }
      th, td { display: block; width: 100%; padding-left: 0; padding-right: 0; }
    }
  </style>
</head>
".to_owned();
    page.append(render_cards(status, xs).as_str());
    page.append(render_settings(config, status).as_str());
    page
}

/// Markup is escaped character by character, and no other character is touched.
pub proof fn law_escaping_goes_character_by_character(a: Seq<char>, b: Seq<char>, c: char)
    ensures
        html_escaped(a + b) == html_escaped(a) + html_escaped(b),
        html_escaped(seq!['&']) == "&amp;"@,
        html_escaped(seq!['<']) == "&lt;"@,
        html_escaped(seq!['>']) == "&gt;"@,
        html_escaped(seq!['"']) == "&quot;"@,
        html_escaped(seq!['\'']) == "&#39;"@,
        !(c == '&' || c == '<' || c == '>' || c == '"' || c == '\'') ==> html_escaped(seq![c]) == seq![c],
    decreases b.len(),
{
    lemma_escaped_char('&');
    lemma_escaped_char('<');
    lemma_escaped_char('>');
    lemma_escaped_char('"');
    lemma_escaped_char('\'');
    lemma_escaped_char(c);
    if b.len() == 0 {
        assert(a + b =~= a);
        assert(html_escaped(a) + html_escaped(b) =~= html_escaped(a));
    } else {
        assert((a + b).drop_last() =~= a + b.drop_last());
        law_escaping_goes_character_by_character(a, b.drop_last(), c);
        assert(html_escaped(a + b) =~= html_escaped(a) + html_escaped(b));
    }
}

proof fn lemma_escaped_char(c: char)
    ensures
        html_escaped(seq![c]) == html_char(c),
{
    reveal_with_fuel(html_escaped, 2);
    assert(seq![c].drop_last() =~= Seq::empty());
    assert(Seq::<char>::empty() + html_char(c) =~= html_char(c));
}

/// Each outcome is drawn on its own line of the timeline, beside the label that names it, and in its own
/// color.
pub proof fn law_outcomes_are_told_apart()
    ensures
        height("created"@) == "36.0"@,
        height("skipped"@) == "74.0"@,
        height("error"@) == "112.0"@,
        color("created"@) != color("skipped"@),
        color("created"@) != color("error"@),
        color("skipped"@) != color("error"@),
{
    reveal_strlit("created");
    reveal_strlit("skipped");
    reveal_strlit("error");
    reveal_strlit("#138a5b");
    reveal_strlit("#b7791f");
    reveal_strlit("#c2413f");
    assert("created"@[0] == 'c' && "skipped"@[0] == 's' && "error"@[0] == 'e');
    assert("#138a5b"@[1] == '1' && "#b7791f"@[1] == 'b' && "#c2413f"@[1] == 'c');
}

/// The latest event stands first, and only so many are shown: older ones change nothing.
pub proof fn law_latest_events_stand_first(events: Seq<ArchiveEvent>, event: ArchiveEvent, n: nat)
    ensures
        n > 0 ==> latest_rows(events.push(event), n) == event_row(event) + latest_rows(
            events,
            (n - 1) as nat,
        ),
        n <= events.len() ==> latest_rows(events, n) == latest_rows(events.skip(events.len() - n), n),
        latest_rows(events, 0) == Seq::<char>::empty(),
    decreases n,
{
    assert(events.push(event).drop_last() =~= events);
    if 0 < n <= events.len() {
        let recent = events.skip(events.len() - n);
        let less = events.drop_last();
        assert(recent.drop_last() =~= less.skip(less.len() - (n - 1)));
        assert(recent.last() == events.last());
        law_latest_events_stand_first(less, event, (n - 1) as nat);
    }
}

/// Twelve events are listed at most, the latest first.
pub proof fn law_twelve_events_are_listed(events: Seq<ArchiveEvent>)
    ensures
        events.len() > 12 ==> event_rows_text(events) == event_rows_text(events.skip(events.len() - 12)),
        events.len() == 1 ==> event_rows_text(events) == event_row(events[0]),
{
    if events.len() > 12 {
        law_latest_events_stand_first(events, events[0], 12);
    }
    if events.len() == 1 {
        reveal_with_fuel(latest_rows, 2);
        assert(event_row(events[0]) + Seq::<char>::empty() =~= event_row(events[0]));
    }
}

/// The archiver is healthy exactly where there is no error, and an error is shown as it is.
pub proof fn law_errors_need_attention(status: PublicStatus)
    ensures
        health_class(status) == "ok"@ <==> status.last_error is None,
        health_label(status) == "Healthy"@ <==> status.last_error is None,
        status.last_error matches Some(e) ==> last_error_text(status) == e@,
{
    reveal_strlit("ok");
    reveal_strlit("bad");
    reveal_strlit("Healthy");
    reveal_strlit("Needs attention");
    assert("ok"@.len() == 2 && "bad"@.len() == 3);
    assert("Healthy"@.len() == 7 && "Needs attention"@.len() == 15);
}

/// Up to three digits stand alone; of more, the last three follow a comma, and so on before it.
pub proof fn law_commas_stand_before_each_three_digits(digits: Seq<char>, three: Seq<char>)
    requires
        three.len() == 3,
    ensures
        digits.len() <= 3 ==> grouped(digits) == digits,
        digits.len() > 0 ==> grouped(digits + three) == grouped(digits) + seq![','] + three,
{
    let all = digits + three;
    assert(all.take(digits.len() as int) =~= digits);
    assert(all.skip(digits.len() as int) =~= three);
    assert(grouped(digits).push(',') =~= grouped(digits) + seq![',']);
}

/// The points of the timeline are those of its events, each at its place and its height.
pub proof fn law_points_are_those_of_the_events(events: Seq<ArchiveEvent>, xs: Seq<Seq<char>>, i: int)
    requires
        0 <= i < events.len(),
    ensures
        point_texts(events, xs).len() == events.len(),
        point_texts(events, xs)[i] == xs[i] + ","@ + height(events[i].outcome@),
{
}

/// What an event is about is its archive, and its reason where it has none.
pub proof fn law_event_is_about_its_archive(event: ArchiveEvent, otherwise: Seq<char>)
    ensures
        event.archive_name matches Some(name) ==> event_detail(event, otherwise) == name@,
        event.archive_name is None ==> (event.reason matches Some(reason) ==> event_detail(event, otherwise)
            == reason@),
        event.archive_name is None && event.reason is None ==> event_detail(event, otherwise) == otherwise,
{
}

/// Every event is drawn, each at its own place, at the height and in the color of its outcome.
pub proof fn law_every_event_is_drawn(events: Seq<ArchiveEvent>, event: ArchiveEvent, xs: Seq<Seq<char>>)
    ensures
        circle_texts(Seq::empty(), xs) == Seq::<char>::empty(),
        circle_texts(events.push(event), xs) == circle_texts(events, xs) + circle(
            event,
            xs[events.len() as int],
        ),
        crate::text_search::starts_with(
            circle(event, xs[0]),
            "<circle cx=\""@ + xs[0] + "\" cy=\""@ + height(event.outcome@) + "\" r=\"6\" fill=\""@ + color(
                event.outcome@,
            ),
        ),
        timestamp_text(None) == "never"@,
{
    assert(events.push(event).drop_last() =~= events);
    let front = "<circle cx=\""@ + xs[0] + "\" cy=\""@ + height(event.outcome@) + "\" r=\"6\" fill=\""@
        + color(event.outcome@);
    let whole = circle(event, xs[0]);
    assert(whole.subrange(0, front.len() as int) =~= front);
}

} // verus!
