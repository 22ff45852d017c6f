//! The operators' dashboard.
use superbank::solparq::archive::{ArchiveKind, Config};
use superbank::solparq::dashboard::{
    event_color, format_u64, format_utc_timestamp, html_escape, moment_or_invalid,
    render_dashboard, render_event_rows, render_timeline, ArchiveEvent, DbSlots, PublicStatus,
};

fn event(timestamp_unix: u64, outcome: &str, name: Option<&str>, reason: Option<&str>) -> ArchiveEvent {
    ArchiveEvent {
        timestamp_unix,
        archive_kind: "hourly".to_string(),
        outcome: outcome.to_string(),
        archive_name: name.map(str::to_string),
        reason: reason.map(str::to_string),
    }
}

fn status() -> PublicStatus {
    PublicStatus {
        last_error: None,
        db_slots: None,
        recent_events: Vec::new(),
        archives_created: 1_234,
        archives_skipped: 2,
        archive_errors: 3,
        last_run_at_unix: None,
        last_success_at_unix: Some(0),
    }
}

fn config() -> Config {
    Config {
        archive_kinds: vec![ArchiveKind::Hourly, ArchiveKind::Custom { slots: 5 }],
        delete_archived_data_range: false,
        continue_from_last_archive: true,
        force_archive: false,
        server_mode: true,
        archive_location: "Local".to_string(),
        output_location: "/data/<archives>".to_string(),
        transactions_table: "default.transactions".to_string(),
        blocks_table: "default.blocks".to_string(),
        archives_to_keep: 1_000,
        archive_check_interval_secs: 3_600,
    }
}

#[test]
fn moments_are_written_in_utc() {
    assert_eq!(format_utc_timestamp(None), "never");
    assert_eq!(format_utc_timestamp(Some(0)), "1970-01-01 00:00:00 UTC");
    assert_eq!(format_utc_timestamp(Some(1_709_210_096)), "2024-02-29 12:34:56 UTC");
    assert_eq!(format_utc_timestamp(Some(i64::MAX as u64)), "invalid timestamp");
    assert_eq!(format_utc_timestamp(Some(u64::MAX)), "1969-12-31 23:59:59 UTC");
    assert_eq!(moment_or_invalid(Some("now".to_string())), "now");
    assert_eq!(moment_or_invalid(None), "invalid timestamp");
}

#[test]
fn numbers_are_grouped_by_thousands() {
    assert_eq!(format_u64(0), "0");
    assert_eq!(format_u64(999), "999");
    assert_eq!(format_u64(1_000), "1,000");
    assert_eq!(format_u64(123_456), "123,456");
    assert_eq!(format_u64(u64::MAX), "18,446,744,073,709,551,615");
    let digits: String = format_u64(9_876_543_210).chars().filter(|c| *c != ',').collect();
    assert_eq!(digits, "9876543210");
}

#[test]
fn texts_lose_their_markup() {
    assert_eq!(
        html_escape("<a href=\"x\">it's & co</a>"),
        "&lt;a href=&quot;x&quot;&gt;it&#39;s &amp; co&lt;/a&gt;"
    );
    assert_eq!(html_escape("&lt;"), "&amp;lt;");
    assert_eq!(html_escape("plain"), "plain");
}

#[test]
fn outcomes_have_colors() {
    assert_eq!(event_color("created"), "#138a5b");
    assert_eq!(event_color("skipped"), "#b7791f");
    assert_eq!(event_color("error"), "#c2413f");
    assert_eq!(event_color("checking"), "#2f6fed");
}

#[test]
fn a_timeline_shows_each_event() {
    assert_eq!(render_timeline(&[], &Vec::new()), "<p>No archive events yet.</p>");
    let events = [
        event(0, "created", Some("a.parquet"), Some("unused")),
        event(60, "skipped", None, Some("few <slots>")),
        event(120, "error", None, None),
        event(180, "checking", None, None),
    ];
    let xs: Vec<String> = ["34.0", "264.7", "495.3", "726.0"].iter().map(|x| x.to_string()).collect();
    let svg = render_timeline(&events, &xs);
    assert!(svg.starts_with("<svg viewBox=\"0 0 760 150\" role=\"img\" aria-label=\"Archive event timeline\"><line x1=\"34\" y1=\"36\" x2=\"726\" y2=\"36\" stroke=\"#d9e1ec\"/>"));
    assert!(svg.contains("<polyline points=\"34.0,36.0 264.7,74.0 495.3,112.0 726.0,94.0\" fill=\"none\""));
    assert!(svg.contains("<circle cx=\"34.0\" cy=\"36.0\" r=\"6\" fill=\"#138a5b\"><title>1970-01-01 00:00:00 UTC hourly a.parquet</title></circle>"));
    assert!(svg.contains("<circle cx=\"264.7\" cy=\"74.0\" r=\"6\" fill=\"#b7791f\"><title>1970-01-01 00:01:00 UTC hourly few &lt;slots&gt;</title></circle>"));
    assert!(svg.contains("<title>1970-01-01 00:02:00 UTC hourly error</title>"));
    assert!(svg.ends_with("</circle></svg>"));
}

#[test]
fn the_newest_twelve_events_are_listed_first() {
    assert_eq!(render_event_rows(&[]), "<p>No recent archive events.</p>");
    let events: Vec<ArchiveEvent> =
        (0..14).map(|n| event(n, "created", Some(&format!("{n}.parquet")), None)).collect();
    let rows = render_event_rows(&events);
    assert_eq!(rows.matches("<div class=\"event\">").count(), 12);
    assert!(rows.starts_with("<div class=\"event\"><div>1970-01-01 00:00:13 UTC</div><div><span class=\"badge created\">created</span></div><div><strong>hourly</strong> 13.parquet</div></div>"));
    assert!(rows.ends_with("<strong>hourly</strong> 2.parquet</div></div>"));
    let bare = render_event_rows(&[event(0, "error", None, None)]);
    assert!(bare.ends_with("<strong>hourly</strong> </div></div>"));
}

#[test]
fn the_dashboard_shows_status_and_settings() {
    let mut s = status();
    let page = render_dashboard(&config(), &s, &Vec::new());
    assert!(page.starts_with("<!doctype html>"));
    assert!(page.ends_with("</html>"));
    assert!(page.contains("<div class=\"label\">Archives created</div><div class=\"value\">1,234</div>"));
    assert!(page.contains("<div class=\"label\">Last run</div><div class=\"value\">never</div>"));
    assert!(page.contains("<div class=\"value\">1970-01-01 00:00:00 UTC</div>"));
    assert!(page.contains("<td>hourly, custom:5</td>"));
    assert!(page.contains("<td><code>/data/&lt;archives&gt;</code></td>"));
    assert!(page.contains("<tr><th>Archives to keep</th><td>1,000</td></tr>"));
    assert!(page.contains("<tr><th>Continue from last archive</th><td>true</td></tr>"));
    assert!(page.contains("<tr><th>Check interval</th><td>3,600 seconds</td></tr>"));
    assert!(page.contains("<tr><th>Last error</th><td>none</td></tr>"));
    assert!(page.contains("<div class=\"pill ok\">"));
    assert!(s.is_healthy());
    s.last_error = Some("disk < full".to_string());
    s.db_slots = Some(DbSlots { slots_available: 5_000, earliest_slot: 1, latest_slot: 5_000 });
    let page = render_dashboard(&config(), &s, &Vec::new());
    assert!(page.contains("<div class=\"pill bad\">"));
    assert!(page.contains("<tr><th>Last error</th><td>disk &lt; full</td></tr>"));
    assert!(page.contains("5,000"));
    assert!(!s.is_healthy());
}
