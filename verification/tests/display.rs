use jobsearch::display::ellip;
use jobsearch::display::{
    company_name, fmt_relative, fmt_relative_at, indent_md, render_job_detailed, render_job_detailed_at, render_table,
    table_rows_at,
};
use jobsearch::models::{Data, Job, NoFluffJobDetail, Platform, UpworkJobDetail};

#[test]
fn test_ellip_short_unchanged() {
    assert_eq!(ellip("short", 40), "short");
}

#[test]
fn test_ellip_truncates_with_ellipsis() {
    let s = "a".repeat(45);
    assert_eq!(ellip(&s, 40).chars().count(), 41);
    assert!(ellip(&s, 40).ends_with('…'));
}

#[test]
fn relative_times() {
    let now = 1_000_000;
    assert_eq!(fmt_relative_at(now, now), "just now");
    assert_eq!(fmt_relative_at(now, now + 500), "just now");
    assert_eq!(fmt_relative_at(now, now - 5 * 60), "5m ago");
    assert_eq!(fmt_relative_at(now, now - 3 * 3_600), "3h ago");
    assert_eq!(fmt_relative_at(now, now - 2 * 86_400), "2d ago");
    assert_eq!(fmt_relative_at(now, now - 21 * 86_400), "3w ago");
}

fn nofluff_job() -> Job {
    Job {
        id: 1,
        platform: Platform::NoFluffJobs,
        external_id: "ext".into(),
        title: "a".repeat(60),
        description: None,
        url: "https://e.com".into(),
        budget: Some("a".repeat(50)),
        tags: vec![],
        raw: Data::Nofluffjobs {
            detail: NoFluffJobDetail { company: "b".repeat(55), ..Default::default() },
        },
        company: None,
        created_at: 0,
        updated_at: 0,
        note: None,
        liked: None,
        remote: false,
        applied_at: None,
    }
}

#[test]
fn test_render_table_caps_long_title() {
    let out = render_table(&[nofluff_job()], Some(Platform::NoFluffJobs));
    assert!(out.contains("Budget"));
    assert!(out.contains("Company"));
    assert!(out.contains("a".repeat(40).as_str()));
    assert!(!out.contains("a".repeat(41).as_str()));
}

#[test]
fn table_rows_cap_cells_at_forty() {
    let (headers, rows) = table_rows_at(&[nofluff_job()], Some(Platform::NoFluffJobs), 120);
    assert_eq!(headers, vec!["Id", "Posted", "Budget", "Applied", "Rating", "Company", "Title", "#"]);
    let row = &rows[0];
    assert_eq!(row[0], "1");
    assert_eq!(row[1], "2m ago");
    assert_eq!(row[2], format!("{}…", "a".repeat(40)));
    assert_eq!(row[5], format!("{}…", "b".repeat(40)));
    assert_eq!(row[6], format!("{}…", "a".repeat(40)));
    assert_eq!(row[7], "1");
}

#[test]
fn detailed_view() {
    let mut job = nofluff_job();
    job.title = "Rust Dev".into();
    job.budget = None;
    job.tags = vec!["rust".into(), "tokio".into()];
    job.liked = Some(true);
    job.note = Some("first\nsecond".into());
    if let Data::Nofluffjobs { detail } = &mut job.raw {
        detail.company = "Acme".into();
        detail.locations = vec!["Warsaw".into(), "Berlin".into()];
        detail.description = "line1\nline2".into();
    }
    let text = render_job_detailed_at(&job, 3_600);
    let lines: Vec<&str> = text.split('\n').collect();
    assert_eq!(lines[0], "#1 [nofluffjobs] 1h ago | ? | Rust Dev");
    assert_eq!(lines[1], "  Tags: rust, tokio");
    assert_eq!(lines[2], "  URL:  https://e.com");
    assert_eq!(lines[3], "  Company:        Acme");
    assert_eq!(lines[4], "  Locations:      Warsaw, Berlin");
    assert_eq!(lines[5], "  Description:");
    assert_eq!(lines[6], "    line1");
    assert_eq!(lines[7], "    line2");
    assert_eq!(lines[8], "  Rating:         liked");
    assert_eq!(lines[9], "  Applied:        no");
    assert_eq!(lines[10], "  Note:");
    assert_eq!(lines[11], "    first");
    assert_eq!(lines[12], "    second");
    assert_eq!(lines[13], "");
    assert_eq!(lines[14], "─".repeat(60));
    assert_eq!(lines.len(), 15);
}

#[test]
fn detailed_upwork_view_says_never_viewed() {
    let mut job = nofluff_job();
    job.raw = Data::Upwork { detail: UpworkJobDetail { proposals: "5".into(), ..Default::default() } };
    let text = render_job_detailed_at(&job, 0);
    assert!(text.contains("\n  Proposals:      5\n"));
    assert!(text.contains("\n  Last viewed by client: never\n"));
    assert_eq!(company_name(&job), "");
}

#[test]
fn indentation() {
    assert_eq!(indent_md("a\nb\n"), "a\n    b\n    ");
    assert_eq!(indent_md("plain"), "plain");
}

fn seconds_ago(secs: i64) -> i64 {
    chrono::Utc::now().timestamp() - secs
}

#[test]
fn test_fmt_relative_just_now() {
    assert_eq!(fmt_relative(chrono::Utc::now().timestamp()), "just now");
}

#[test]
fn test_fmt_relative_minutes() {
    assert_eq!(fmt_relative(seconds_ago(5 * 60)), "5m ago");
}

#[test]
fn test_fmt_relative_hours() {
    assert_eq!(fmt_relative(seconds_ago(3 * 3_600)), "3h ago");
}

#[test]
fn test_fmt_relative_days() {
    assert_eq!(fmt_relative(seconds_ago(2 * 86_400)), "2d ago");
}

#[test]
fn test_fmt_relative_weeks() {
    assert_eq!(fmt_relative(seconds_ago(21 * 86_400)), "3w ago");
}

#[test]
fn detailed_view_from_the_clock() {
    let mut job = nofluff_job();
    job.title = "Rust Dev".into();
    job.created_at = chrono::Utc::now().timestamp() - 2 * 86_400;
    job.budget = None;
    let text = render_job_detailed(&job);
    assert_eq!(text.split('\n').next(), Some("#1 [nofluffjobs] 2d ago | ? | Rust Dev"));
}

#[test]
fn table_is_framed_with_one_row_per_job() {
    let jobs = vec![nofluff_job(), nofluff_job(), nofluff_job()];
    let out = render_table(&jobs, Some(Platform::NoFluffJobs));
    let lines: Vec<&str> = out.lines().collect();
    assert!(lines[0].starts_with('┌') && lines[0].ends_with('┐'));
    let last = lines[lines.len() - 1];
    assert!(last.starts_with('└') && last.ends_with('┘'));
    assert_eq!(lines.iter().filter(|l| l.starts_with('╞')).count(), 1);
    assert_eq!(lines.iter().filter(|l| l.starts_with('├')).count(), 2);
    let empty = render_table(&[], None);
    assert_eq!(empty.lines().filter(|l| l.starts_with('├')).count(), 0);
    assert_eq!(empty.lines().filter(|l| l.starts_with('╞')).count(), 1);
}
