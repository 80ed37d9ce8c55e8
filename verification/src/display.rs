//! Rendering jobs for the terminal: relative times, shortened cells, the
//! detailed view of one job and the rows of the job table.

use crate::models::{
    Data, EfinancialcareersJobDetail, Job, NoFluffJobDetail, Platform, UpworkJobDetail,
    platform_name,
};
use crate::text::{
    chars_of, dec, dec_int, join, join_strings, join_vecs, lines_of, lines_vec, push_all,
    push_decimal, push_i64, push_str, replace_all, replace_all_exec, slice_vec, string_of,
    strings_view, vecs_view,
};
use crate::clock::now_unix;
use vstd::prelude::*;

verus! {

/// How long ago something happened `e` seconds ago: "just now" under a
/// minute, then whole minutes, hours, days and weeks.
pub open spec fn elapsed_text(e: int) -> Seq<char> {
    if e < 60 {
        "just now"@
    } else if e < 3600 {
        dec((e / 60) as nat) + "m ago"@
    } else if e < 86400 {
        dec((e / 3600) as nat) + "h ago"@
    } else if e < 604800 {
        dec((e / 86400) as nat) + "d ago"@
    } else {
        dec((e / 86400 / 7) as nat) + "w ago"@
    }
}

/// How long before `now` the moment `t` lies.
pub open spec fn relative_text(now: int, t: int) -> Seq<char> {
    elapsed_text(now - t)
}

/// The relative time of `t`, seen from `now`.
pub fn fmt_relative_at(now: i64, t: i64) -> (r: String)
    ensures
        r@ == relative_text(now as int, t as int),
{
    let e: i128 = now as i128 - t as i128;
    let mut out: Vec<char> = Vec::new();
    if e < 60 {
        push_str(&mut out, "just now");
    } else if e < 3600 {
        push_decimal(&mut out, (e / 60) as u64);
        push_str(&mut out, "m ago");
    } else if e < 86400 {
        push_decimal(&mut out, (e / 3600) as u64);
        push_str(&mut out, "h ago");
    } else if e < 604800 {
        push_decimal(&mut out, (e / 86400) as u64);
        push_str(&mut out, "d ago");
    } else {
        push_decimal(&mut out, (e / 86400 / 7) as u64);
        push_str(&mut out, "w ago");
    }
    string_of(&out)
}

/// How long ago `t` was, seen from the time of the call.
pub fn fmt_relative(t: i64) -> (r: String)
    ensures
        exists|now: i64| r@ == relative_text(now as int, t as int),
{
    let now = now_unix();
    fmt_relative_at(now, t)
}

/// `s` cut to `max` characters, with '…' added where it was cut.
pub open spec fn ellip_spec(s: Seq<char>, max: nat) -> Seq<char> {
    if s.len() <= max {
        s
    } else {
        s.subrange(0, max as int).push('\u{2026}')
    }
}

pub fn ellip(s: &str, max: usize) -> (r: String)
    ensures
        r@ == ellip_spec(s@, max as nat),
{
    let v = chars_of(s);
    if v.len() <= max {
        string_of(&v)
    } else {
        let mut w = slice_vec(&v, 0, max);
        w.push('\u{2026}');
        string_of(&w)
    }
}

/// `text` with every line after the first indented by four spaces.
pub open spec fn indent_spec(text: Seq<char>) -> Seq<char> {
    replace_all(text, seq!['\n'], seq!['\n', ' ', ' ', ' ', ' '])
}

pub fn indent_md(text: &str) -> (r: String)
    ensures
        r@ == indent_spec(text@),
{
    let nl = vec!['\n'];
    let ind = vec!['\n', ' ', ' ', ' ', ' '];
    assert(nl@ =~= seq!['\n']);
    assert(ind@ =~= seq!['\n', ' ', ' ', ' ', ' ']);
    string_of(&replace_all_exec(&chars_of(text), &nl, &ind))
}

/// The company a job's detail names; Upwork jobs name none.
pub open spec fn company_of(job: Job) -> Seq<char> {
    match job.raw {
        Data::Nofluffjobs { detail } => detail.company@,
        Data::Efinancialcareers { detail } => detail.company@,
        _ => Seq::empty(),
    }
}

pub fn company_name(job: &Job) -> (r: &str)
    ensures
        r@ == company_of(*job),
{
    match &job.raw {
        Data::Nofluffjobs { detail } => detail.company.as_str(),
        Data::Efinancialcareers { detail } => detail.company.as_str(),
        _ => {
            proof {
                reveal_strlit("");
            }
            ""
        },
    }
}

/// A labelled line, left out when the value is empty.
pub open spec fn field_line(label: Seq<char>, v: Seq<char>) -> Seq<Seq<char>> {
    if v.len() == 0 {
        Seq::empty()
    } else {
        seq![label + v]
    }
}

/// A labelled block of indented text, left out when it is empty.
pub open spec fn block_line(label: Seq<char>, v: Seq<char>) -> Seq<Seq<char>> {
    if v.len() == 0 {
        Seq::empty()
    } else {
        seq![label + indent_spec(v)]
    }
}

/// A labelled comma-separated list, left out when it is empty.
pub open spec fn list_line(label: Seq<char>, v: Seq<String>) -> Seq<Seq<char>> {
    if v.len() == 0 {
        Seq::empty()
    } else {
        seq![label + join(strings_view(v), ", "@)]
    }
}

pub open spec fn upwork_lines(d: UpworkJobDetail, now: int) -> Seq<Seq<char>> {
    field_line("  Exact budget:   "@, d.exact_budget@) + field_line(
        "  Experience:     "@,
        d.experience_level@,
    ) + field_line("  Project type:   "@, d.project_type@) + field_line(
        "  Duration:       "@,
        d.duration@,
    ) + field_line("  Hours/week:     "@, d.hours_per_week@) + field_line(
        "  Hires:          "@,
        d.hires@,
    ) + field_line("  Proposals:      "@, d.proposals@) + seq![
        match d.last_viewed {
            Some(t) => "  Last viewed by client: "@ + relative_text(now, t as int),
            None => "  Last viewed by client: never"@,
        },
    ] + field_line("  Interviewing:   "@, d.interviewing@) + field_line(
        "  Invites sent:   "@,
        d.invites_sent@,
    ) + field_line("  Unanswered:     "@, d.unanswered_invites@) + block_line(
        "  Description:\n    "@,
        d.description@,
    )
}

pub open spec fn nofluff_lines(d: NoFluffJobDetail) -> Seq<Seq<char>> {
    field_line("  Company:        "@, d.company@) + field_line("  Seniority:      "@, d.seniority@)
        + list_line("  Locations:      "@, d.locations@) + field_line(
        "  Valid until:    "@,
        d.offer_valid_until@,
    ) + list_line("  Must have:      "@, d.must_have@) + list_line(
        "  Languages:      "@,
        d.languages@,
    ) + block_line("  Requirements:\n    "@, d.requirements@) + block_line(
        "  Nice to have:\n    "@,
        d.nice_to_have@,
    ) + block_line("  Description:\n    "@, d.description@)
}

pub open spec fn efc_lines(d: EfinancialcareersJobDetail) -> Seq<Seq<char>> {
    field_line("  Company:        "@, d.company@) + field_line("  Location:       "@, d.location@)
        + field_line("  Employment:     "@, d.employment_type@) + field_line(
        "  Salary:         "@,
        d.salary@,
    ) + block_line("  Description:\n    "@, d.description@)
}

pub open spec fn data_lines(d: Data, now: int) -> Seq<Seq<char>> {
    match d {
        Data::Upwork { detail } => upwork_lines(detail, now),
        Data::Nofluffjobs { detail } => nofluff_lines(detail),
        Data::Efinancialcareers { detail } => efc_lines(detail),
        _ => Seq::empty(),
    }
}

/// The budget as shown, '?' when there is none.
pub open spec fn budget_shown(b: Option<String>) -> Seq<char> {
    match b {
        Some(s) => s@,
        None => "?"@,
    }
}

pub open spec fn header_line(job: Job, now: int) -> Seq<char> {
    "#"@ + dec_int(job.id as int) + " ["@ + platform_name(job.platform) + "] "@ + relative_text(
        now,
        job.created_at as int,
    ) + " | "@ + budget_shown(job.budget) + " | "@ + job.title@
}

pub open spec fn rating_word(liked: Option<bool>) -> Seq<char> {
    match liked {
        Some(true) => "liked"@,
        Some(false) => "disliked"@,
        None => "neutral"@,
    }
}

pub open spec fn note_lines(note: Option<String>) -> Seq<Seq<char>> {
    match note {
        Some(n) => if n@.len() == 0 {
            Seq::empty()
        } else {
            seq!["  Note:"@] + lines_of(n@).map_values(|l: Seq<char>| "    "@ + l)
        },
        None => Seq::empty(),
    }
}

/// A horizontal rule of 60 box-drawing characters.
pub open spec fn rule_line() -> Seq<char> {
    Seq::new(60, |i: int| '\u{2500}')
}

/// The lines of the detailed view of `job`, seen from `now`.
pub open spec fn job_lines(job: Job, now: int) -> Seq<Seq<char>> {
    seq![header_line(job, now)] + (if job.tags@.len() == 0 {
        Seq::<Seq<char>>::empty()
    } else {
        seq!["  Tags: "@ + join(strings_view(job.tags@), ", "@)]
    }) + seq!["  URL:  "@ + job.url@] + data_lines(job.raw, now) + seq![
        "  Rating:         "@ + rating_word(job.liked),
    ] + seq![
        match job.applied_at {
            Some(t) => "  Applied:        "@ + relative_text(now, t as int),
            None => "  Applied:        no"@,
        },
    ] + note_lines(job.note) + seq![Seq::<char>::empty(), rule_line()]
}

/// The detailed view of `job`: its lines joined by line feeds.
pub open spec fn job_detail_text(job: Job, now: int) -> Seq<char> {
    join(job_lines(job, now), seq!['\n'])
}

fn push_line(lines: &mut Vec<Vec<char>>, l: Vec<char>)
    ensures
        vecs_view(final(lines)@) == vecs_view(old(lines)@) + seq![l@],
{
    let ghost l0 = lines@;
    let ghost lv = l@;
    lines.push(l);
    assert(vecs_view(lines@) =~= vecs_view(l0) + seq![lv]);
}

fn labelled(label: &str, v: &str) -> (r: Vec<char>)
    ensures
        r@ == label@ + v@,
{
    let mut out: Vec<char> = Vec::new();
    push_str(&mut out, label);
    push_str(&mut out, v);
    assert(out@ =~= label@ + v@);
    out
}

fn push_field(lines: &mut Vec<Vec<char>>, label: &str, v: &String)
    ensures
        vecs_view(final(lines)@) == vecs_view(old(lines)@) + field_line(label@, v@),
{
    if v.as_str().is_empty() {
        assert(vecs_view(lines@) + field_line(label@, v@) =~= vecs_view(lines@));
    } else {
        push_line(lines, labelled(label, v.as_str()));
    }
}

fn push_block(lines: &mut Vec<Vec<char>>, label: &str, v: &String)
    ensures
        vecs_view(final(lines)@) == vecs_view(old(lines)@) + block_line(label@, v@),
{
    if v.as_str().is_empty() {
        assert(vecs_view(lines@) + block_line(label@, v@) =~= vecs_view(lines@));
    } else {
        let ind = indent_md(v.as_str());
        push_line(lines, labelled(label, ind.as_str()));
    }
}

fn push_list(lines: &mut Vec<Vec<char>>, label: &str, v: &Vec<String>)
    ensures
        vecs_view(final(lines)@) == vecs_view(old(lines)@) + list_line(label@, v@),
{
    if v.len() == 0 {
        assert(vecs_view(lines@) + list_line(label@, v@) =~= vecs_view(lines@));
    } else {
        let mut out: Vec<char> = Vec::new();
        push_str(&mut out, label);
        let j = join_strings(v, ", ");
        push_all(&mut out, &j);
        push_line(lines, out);
    }
}

fn upwork_detail_lines(d: &UpworkJobDetail, now: i64) -> (r: Vec<Vec<char>>)
    ensures
        vecs_view(r@) == upwork_lines(*d, now as int),
{
    let mut lines: Vec<Vec<char>> = Vec::new();
    assert(vecs_view(lines@) =~= Seq::<Seq<char>>::empty());
    push_field(&mut lines, "  Exact budget:   ", &d.exact_budget);
    assert(vecs_view(lines@) =~= field_line("  Exact budget:   "@, d.exact_budget@));
    push_field(&mut lines, "  Experience:     ", &d.experience_level);
    push_field(&mut lines, "  Project type:   ", &d.project_type);
    push_field(&mut lines, "  Duration:       ", &d.duration);
    push_field(&mut lines, "  Hours/week:     ", &d.hours_per_week);
    push_field(&mut lines, "  Hires:          ", &d.hires);
    push_field(&mut lines, "  Proposals:      ", &d.proposals);
    match d.last_viewed {
        Some(t) => {
            let rel = fmt_relative_at(now, t);
            push_line(&mut lines, labelled("  Last viewed by client: ", rel.as_str()));
        },
        None => {
            push_line(&mut lines, chars_of("  Last viewed by client: never"));
        },
    }
    push_field(&mut lines, "  Interviewing:   ", &d.interviewing);
    push_field(&mut lines, "  Invites sent:   ", &d.invites_sent);
    push_field(&mut lines, "  Unanswered:     ", &d.unanswered_invites);
    push_block(&mut lines, "  Description:\n    ", &d.description);
    lines
}

fn nofluff_detail_lines(d: &NoFluffJobDetail) -> (r: Vec<Vec<char>>)
    ensures
        vecs_view(r@) == nofluff_lines(*d),
{
    let mut lines: Vec<Vec<char>> = Vec::new();
    assert(vecs_view(lines@) =~= Seq::<Seq<char>>::empty());
    push_field(&mut lines, "  Company:        ", &d.company);
    assert(vecs_view(lines@) =~= field_line("  Company:        "@, d.company@));
    push_field(&mut lines, "  Seniority:      ", &d.seniority);
    push_list(&mut lines, "  Locations:      ", &d.locations);
    push_field(&mut lines, "  Valid until:    ", &d.offer_valid_until);
    push_list(&mut lines, "  Must have:      ", &d.must_have);
    push_list(&mut lines, "  Languages:      ", &d.languages);
    push_block(&mut lines, "  Requirements:\n    ", &d.requirements);
    push_block(&mut lines, "  Nice to have:\n    ", &d.nice_to_have);
    push_block(&mut lines, "  Description:\n    ", &d.description);
    lines
}

fn efc_detail_lines(d: &EfinancialcareersJobDetail) -> (r: Vec<Vec<char>>)
    ensures
        vecs_view(r@) == efc_lines(*d),
{
    let mut lines: Vec<Vec<char>> = Vec::new();
    assert(vecs_view(lines@) =~= Seq::<Seq<char>>::empty());
    push_field(&mut lines, "  Company:        ", &d.company);
    assert(vecs_view(lines@) =~= field_line("  Company:        "@, d.company@));
    push_field(&mut lines, "  Location:       ", &d.location);
    push_field(&mut lines, "  Employment:     ", &d.employment_type);
    push_field(&mut lines, "  Salary:         ", &d.salary);
    push_block(&mut lines, "  Description:\n    ", &d.description);
    lines
}

fn push_lines(lines: &mut Vec<Vec<char>>, more: Vec<Vec<char>>)
    ensures
        vecs_view(final(lines)@) == vecs_view(old(lines)@) + vecs_view(more@),
{
    let ghost l0 = vecs_view(lines@);
    let ghost m = vecs_view(more@);
    let mut rest = more;
    let ghost mut k: int = 0;
    while rest.len() > 0
        invariant
            0 <= k <= m.len(),
            vecs_view(rest@) == m.subrange(k, m.len() as int),
            vecs_view(lines@) == l0 + m.subrange(0, k),
        decreases rest.len(),
    {
        let ghost r0 = rest@;
        let x = rest.remove(0);
        proof {
            assert(x@ == vecs_view(r0)[0]);
            assert(vecs_view(rest@) =~= vecs_view(r0).drop_first());
        }
        push_line(lines, x);
        proof {
            assert(l0 + m.subrange(0, k + 1) =~= l0 + m.subrange(0, k) + seq![x@]);
            k = k + 1;
            assert(vecs_view(rest@) =~= m.subrange(k, m.len() as int));
        }
    }
    assert(m.subrange(0, k) =~= m);
}

fn note_detail_lines(note: &Option<String>) -> (r: Vec<Vec<char>>)
    ensures
        vecs_view(r@) == note_lines(*note),
{
    let mut out: Vec<Vec<char>> = Vec::new();
    match note {
        Some(n) => {
            if n.as_str().is_empty() {
                assert(vecs_view(out@) =~= note_lines(*note));
                return out;
            }
            let ls = lines_vec(&chars_of(n.as_str()));
            let ghost lv = vecs_view(ls@);
            push_line(&mut out, chars_of("  Note:"));
            let mut i: usize = 0;
            while i < ls.len()
                invariant
                    i <= ls.len(),
                    lv == vecs_view(ls@),
                    vecs_view(out@) == seq!["  Note:"@] + lv.subrange(0, i as int).map_values(
                        |l: Seq<char>| "    "@ + l,
                    ),
                decreases ls.len() - i,
            {
                let mut line: Vec<char> = Vec::new();
                push_str(&mut line, "    ");
                push_all(&mut line, &ls[i]);
                let ghost o0 = vecs_view(out@);
                push_line(&mut out, line);
                proof {
                    assert(lv.subrange(0, i + 1).map_values(|l: Seq<char>| "    "@ + l) =~= lv.subrange(
                        0,
                        i as int,
                    ).map_values(|l: Seq<char>| "    "@ + l) + seq!["    "@ + lv[i as int]]);
                }
                i = i + 1;
            }
            assert(lv.subrange(0, i as int) =~= lv);
            out
        },
        None => {
            assert(vecs_view(out@) =~= note_lines(*note));
            out
        },
    }
}

/// The detailed view of `job`, seen from `now`.
pub fn render_job_detailed_at(job: &Job, now: i64) -> (r: String)
    ensures
        r@ == job_detail_text(*job, now as int),
{
    let mut lines: Vec<Vec<char>> = Vec::new();
    let mut head: Vec<char> = Vec::new();
    push_str(&mut head, "#");
    push_i64(&mut head, job.id);
    push_str(&mut head, " [");
    let pname = job.platform.to_string();
    push_str(&mut head, pname.as_str());
    push_str(&mut head, "] ");
    let rel = fmt_relative_at(now, job.created_at);
    push_str(&mut head, rel.as_str());
    push_str(&mut head, " | ");
    match &job.budget {
        Some(b) => push_str(&mut head, b.as_str()),
        None => push_str(&mut head, "?"),
    }
    push_str(&mut head, " | ");
    push_str(&mut head, job.title.as_str());
    assert(head@ =~= header_line(*job, now as int));
    push_line(&mut lines, head);
    assert(vecs_view(lines@) =~= seq![header_line(*job, now as int)]);
    if job.tags.len() > 0 {
        let mut t: Vec<char> = Vec::new();
        push_str(&mut t, "  Tags: ");
        let j = join_strings(&job.tags, ", ");
        push_all(&mut t, &j);
        push_line(&mut lines, t);
    } else {
        assert(vecs_view(lines@) =~= vecs_view(lines@) + Seq::<Seq<char>>::empty());
    }
    push_line(&mut lines, labelled("  URL:  ", job.url.as_str()));
    let data = match &job.raw {
        Data::Upwork { detail } => upwork_detail_lines(detail, now),
        Data::Nofluffjobs { detail } => nofluff_detail_lines(detail),
        Data::Efinancialcareers { detail } => efc_detail_lines(detail),
        _ => Vec::new(),
    };
    push_lines(&mut lines, data);
    let word = match job.liked {
        Some(true) => "liked",
        Some(false) => "disliked",
        None => "neutral",
    };
    push_line(&mut lines, labelled("  Rating:         ", word));
    match job.applied_at {
        Some(t) => {
            let rel = fmt_relative_at(now, t);
            push_line(&mut lines, labelled("  Applied:        ", rel.as_str()));
        },
        None => push_line(&mut lines, chars_of("  Applied:        no")),
    }
    let notes = note_detail_lines(&job.note);
    push_lines(&mut lines, notes);
    push_line(&mut lines, Vec::new());
    let mut rule: Vec<char> = Vec::new();
    let mut k: usize = 0;
    while k < 60
        invariant
            k <= 60,
            rule@ == Seq::new(k as nat, |i: int| '\u{2500}'),
        decreases 60 - k,
    {
        rule.push('\u{2500}');
        k = k + 1;
        assert(rule@ =~= Seq::new(k as nat, |i: int| '\u{2500}'));
    }
    push_line(&mut lines, rule);
    assert(vecs_view(lines@) =~= job_lines(*job, now as int));
    let nl = vec!['\n'];
    assert(nl@ =~= seq!['\n']);
    string_of(&join_vecs(&lines, &nl))
}

/// The detailed view of `job`, with times relative to the time of the call.
pub fn render_job_detailed(job: &Job) -> (r: String)
    ensures
        exists|now: i64| r@ == job_detail_text(*job, now as int),
{
    let now = now_unix();
    render_job_detailed_at(job, now)
}


/// The header of the job table for a platform, or for all platforms.
pub open spec fn table_headers(p: Option<Platform>) -> Seq<Seq<char>> {
    match p {
        None => seq![
            "Id"@,
            "Platform"@,
            "Posted"@,
            "Budget"@,
            "Applied"@,
            "Rating"@,
            "Company"@,
            "Title"@,
            "#"@,
        ],
        Some(Platform::Upwork) => seq![
            "Id"@,
            "Posted"@,
            "Budget"@,
            "Applied"@,
            "Rating"@,
            "Last viewed"@,
            "Title"@,
            "#"@,
        ],
        Some(_) => seq![
            "Id"@,
            "Posted"@,
            "Budget"@,
            "Applied"@,
            "Rating"@,
            "Company"@,
            "Title"@,
            "#"@,
        ],
    }
}

/// A thumb for a liked or disliked job, nothing for an unrated one.
pub open spec fn rating_icon(liked: Option<bool>) -> Seq<char> {
    match liked {
        Some(true) => "\u{1f44d}"@,
        Some(false) => "\u{1f44e}"@,
        None => ""@,
    }
}

/// A relative time, or nothing when there is no time.
pub open spec fn opt_relative(now: int, t: Option<i64>) -> Seq<char> {
    match t {
        Some(x) => relative_text(now, x as int),
        None => ""@,
    }
}

/// When the client last viewed an Upwork job, or nothing.
pub open spec fn last_viewed_cell(job: Job, now: int) -> Seq<char> {
    match job.raw {
        Data::Upwork { detail } => opt_relative(now, detail.last_viewed),
        _ => ""@,
    }
}

/// The cells of the `i`-th row (counted from 0) of the job table.
pub open spec fn table_row(job: Job, i: int, p: Option<Platform>, now: int) -> Seq<Seq<char>> {
    let id = dec_int(job.id as int);
    let posted = relative_text(now, job.created_at as int);
    let budget = ellip_spec(budget_shown(job.budget), 40);
    let applied = opt_relative(now, job.applied_at);
    let icon = rating_icon(job.liked);
    let title = ellip_spec(job.title@, 40);
    let n = dec((i + 1) as nat);
    match p {
        None => seq![
            id,
            platform_name(job.platform),
            posted,
            budget,
            applied,
            icon,
            ellip_spec(company_of(job), 40),
            title,
            n,
        ],
        Some(Platform::Upwork) => seq![
            id,
            posted,
            budget,
            applied,
            icon,
            last_viewed_cell(job, now),
            title,
            n,
        ],
        Some(_) => seq![
            id,
            posted,
            budget,
            applied,
            icon,
            ellip_spec(company_of(job), 40),
            title,
            n,
        ],
    }
}

/// The Upwork table shows only Upwork jobs.
pub open spec fn table_defined(jobs: Seq<Job>, p: Option<Platform>) -> bool {
    p == Some(Platform::Upwork) ==> forall|k: int| 0 <= k < jobs.len() ==> (#[trigger] jobs[k]).raw is Upwork
}

fn cells_of(v: Vec<Vec<char>>) -> (r: Vec<String>)
    ensures
        strings_view(r@) == vecs_view(v@),
{
    let mut out: Vec<String> = Vec::new();
    let mut i: usize = 0;
    while i < v.len()
        invariant
            i <= v.len(),
            strings_view(out@) == vecs_view(v@).subrange(0, i as int),
        decreases v.len() - i,
    {
        let s = string_of(&v[i]);
        let ghost o0 = out@;
        out.push(s);
        assert(strings_view(out@) =~= strings_view(o0).push(s@));
        assert(vecs_view(v@).subrange(0, i + 1) =~= vecs_view(v@).subrange(0, i as int).push(
            v@[i as int]@,
        ));
        i = i + 1;
    }
    assert(vecs_view(v@).subrange(0, i as int) =~= vecs_view(v@));
    out
}

fn headers_exec(p: Option<Platform>) -> (r: Vec<String>)
    ensures
        strings_view(r@) == table_headers(p),
{
    let names: Vec<&str> = match p {
        None => vec!["Id", "Platform", "Posted", "Budget", "Applied", "Rating", "Company", "Title", "#"],
        Some(Platform::Upwork) => vec!["Id", "Posted", "Budget", "Applied", "Rating", "Last viewed", "Title", "#"],
        Some(_) => vec!["Id", "Posted", "Budget", "Applied", "Rating", "Company", "Title", "#"],
    };
    let mut v: Vec<Vec<char>> = Vec::new();
    let mut i: usize = 0;
    while i < names.len()
        invariant
            i <= names.len(),
            vecs_view(v@) == names@.subrange(0, i as int).map_values(|x: &str| x@),
        decreases names.len() - i,
    {
        let c = chars_of(names[i]);
        push_line(&mut v, c);
        assert(names@.subrange(0, i + 1).map_values(|x: &str| x@) =~= names@.subrange(
            0,
            i as int,
        ).map_values(|x: &str| x@) + seq![names@[i as int]@]);
        i = i + 1;
    }
    assert(names@.subrange(0, i as int) =~= names@);
    assert(vecs_view(v@) =~= table_headers(p));
    cells_of(v)
}

fn opt_relative_exec(now: i64, t: Option<i64>) -> (r: Vec<char>)
    ensures
        r@ == opt_relative(now as int, t),
{
    match t {
        Some(x) => chars_of(fmt_relative_at(now, x).as_str()),
        None => chars_of(""),
    }
}

fn row_exec(job: &Job, i: usize, p: Option<Platform>, now: i64) -> (r: Vec<String>)
    requires
        i < usize::MAX,
        p == Some(Platform::Upwork) ==> job.raw is Upwork,
    ensures
        strings_view(r@) == table_row(*job, i as int, p, now as int),
{
    let mut id: Vec<char> = Vec::new();
    push_i64(&mut id, job.id);
    let posted = chars_of(fmt_relative_at(now, job.created_at).as_str());
    let b = match &job.budget {
        Some(b) => ellip(b.as_str(), 40),
        None => ellip("?", 40),
    };
    let budget = chars_of(b.as_str());
    let applied = opt_relative_exec(now, job.applied_at);
    let icon = match job.liked {
        Some(true) => chars_of("\u{1f44d}"),
        Some(false) => chars_of("\u{1f44e}"),
        None => chars_of(""),
    };
    let title = chars_of(ellip(job.title.as_str(), 40).as_str());
    let mut n: Vec<char> = Vec::new();
    push_decimal(&mut n, (i + 1) as u64);
    let mut cells: Vec<Vec<char>> = Vec::new();
    push_line(&mut cells, id);
    assert(vecs_view(cells@) =~= seq![dec_int(job.id as int)]);
    match p {
        None => {
            push_line(&mut cells, chars_of(job.platform.to_string().as_str()));
            push_line(&mut cells, posted);
            push_line(&mut cells, budget);
            push_line(&mut cells, applied);
            push_line(&mut cells, icon);
            push_line(&mut cells, chars_of(ellip(company_name(job), 40).as_str()));
            push_line(&mut cells, title);
            push_line(&mut cells, n);
        },
        Some(Platform::Upwork) => {
            push_line(&mut cells, posted);
            push_line(&mut cells, budget);
            push_line(&mut cells, applied);
            push_line(&mut cells, icon);
            let lv = match &job.raw {
                Data::Upwork { detail } => opt_relative_exec(now, detail.last_viewed),
                _ => chars_of(""),
            };
            push_line(&mut cells, lv);
            push_line(&mut cells, title);
            push_line(&mut cells, n);
        },
        Some(_) => {
            push_line(&mut cells, posted);
            push_line(&mut cells, budget);
            push_line(&mut cells, applied);
            push_line(&mut cells, icon);
            push_line(&mut cells, chars_of(ellip(company_name(job), 40).as_str()));
            push_line(&mut cells, title);
            push_line(&mut cells, n);
        },
    }
    assert(vecs_view(cells@) =~= table_row(*job, i as int, p, now as int));
    cells_of(cells)
}

/// The header and the rows of the job table, seen from `now`.
pub fn table_rows_at(jobs: &[Job], platform: Option<Platform>, now: i64) -> (r: (
    Vec<String>,
    Vec<Vec<String>>,
))
    requires
        table_defined(jobs@, platform),
    ensures
        strings_view(r.0@) == table_headers(platform),
        r.1@.len() == jobs@.len(),
        forall|k: int|
            0 <= k < jobs@.len() ==> strings_view(#[trigger] r.1@[k]@) == table_row(
                jobs@[k],
                k,
                platform,
                now as int,
            ),
{
    let headers = headers_exec(platform);
    let mut rows: Vec<Vec<String>> = Vec::new();
    let mut i: usize = 0;
    while i < jobs.len()
        invariant
            i <= jobs@.len(),
            table_defined(jobs@, platform),
            rows@.len() == i,
            forall|k: int|
                0 <= k < i ==> strings_view(#[trigger] rows@[k]@) == table_row(
                    jobs@[k],
                    k,
                    platform,
                    now as int,
                ),
        decreases jobs@.len() - i,
    {
        let row = row_exec(&jobs[i], i, platform, now);
        rows.push(row);
        i = i + 1;
    }
    (headers, rows)
}

fn position_of(headers: &Vec<String>, name: &str) -> (r: Option<usize>)
    ensures
        match r {
            Some(k) => k < headers@.len() && headers@[k as int]@ == name@ && forall|j: int|
                0 <= j < k ==> headers@[j]@ != name@,
            None => forall|j: int| 0 <= j < headers@.len() ==> headers@[j]@ != name@,
        },
{
    let target = chars_of(name);
    let mut i: usize = 0;
    while i < headers.len()
        invariant
            i <= headers@.len(),
            target@ == name@,
            forall|j: int| 0 <= j < i ==> headers@[j]@ != name@,
        decreases headers.len() - i,
    {
        let h = chars_of(headers[i].as_str());
        if crate::text::eq_vec(&h, &target) {
            return Some(i);
        }
        i = i + 1;
    }
    None
}

/// How many of `lines` start with `c`.
pub open spec fn lines_starting(lines: Seq<Seq<char>>, c: char) -> nat
    decreases lines.len(),
{
    if lines.len() == 0 {
        0
    } else {
        (if lines[0].len() > 0 && lines[0][0] == c {
            1nat
        } else {
            0nat
        }) + lines_starting(lines.drop_first(), c)
    }
}

/// The frame of a table drawn with `comfy_table`'s UTF-8 full style, a
/// header and `n` rows, whatever the widths of its columns: the first line
/// is the top border ("┌…┐"), the last the bottom border ("└…┘"), one line
/// is the header separator ("╞…╡"), and a row separator ("├…┤") stands
/// between each two rows. Every other line is content and starts with '│'.
pub open spec fn framed_table(text: Seq<char>, n: nat) -> bool {
    let ls = lines_of(text);
    &&& ls.len() > 0
    &&& ls[0].len() > 0 && ls[0][0] == '┌' && ls[0].last() == '┐'
    &&& ls.last().len() > 0 && ls.last()[0] == '└' && ls.last().last() == '┘'
    &&& lines_starting(ls, '╞') == 1
    &&& lines_starting(ls, '├') == (if n > 0 {
        (n - 1) as nat
    } else {
        0nat
    })
}

/// The rows of a table as their cells' views.
pub open spec fn rows_view(rows: Seq<Vec<String>>) -> Seq<Seq<Seq<char>>> {
    rows.map_values(|r: Vec<String>| strings_view(r@))
}

/// Name for the text `comfy_table` draws for a table in its UTF-8 full
/// style with a dynamic content arrangement, the header `headers`, the rows
/// `rows`, the columns listed in `right` aligned to the right, and the
/// table width `width` (none: no width known, so nothing is wrapped).
pub uninterp spec fn comfy_table_text(
    headers: Seq<Seq<char>>,
    rows: Seq<Seq<Seq<char>>>,
    right: Seq<usize>,
    width: Option<u16>,
) -> Seq<char>;

/// Renders a table with `comfy_table`: UTF-8 borders, a dynamic content
/// arrangement, the header `headers`, the rows `rows`, the columns listed
/// in `right` aligned to the right, and the width `width` when one is
/// known (standard output is not treated as a terminal otherwise, so no
/// width is detected). The contract names the text, and states the frame
/// that the crate's source draws at every width (`Table`'s `Display` joins
/// the lines that `draw_borders` makes): `framed_table`.
#[verifier::external_body]
fn comfy_render(
    headers: &Vec<String>,
    rows: &Vec<Vec<String>>,
    right: &Vec<usize>,
    width: Option<u16>,
) -> (r: String)
    ensures
        r@ == comfy_table_text(strings_view(headers@), rows_view(rows@), right@, width),
        framed_table(r@, rows@.len()),
{
    let mut table = comfy_table::Table::new();
    table.load_style(comfy_table::presets::UTF8_FULL).force_no_tty();
    table.set_content_arrangement(comfy_table::ContentArrangement::Dynamic);
    if let Some(w) = width { table.set_width(w); }
    table.set_header(headers.clone());
    for row in rows { table.add_row(row.clone()); }
    for &i in right {
        if let Some(column) = table.column_mut(i) {
            column.set_cell_alignment(comfy_table::CellAlignment::Right);
        }
    }
    table.to_string()
}

/// The width `comfy_table` detects for a table printed to standard output
/// (`Table::width` of a fresh table): the terminal's width when standard
/// output is a terminal whose size can be read, none otherwise. It comes
/// from the environment, so nothing is claimed of it.
#[verifier::external_body]
fn terminal_width() -> (r: Option<u16>) {
    comfy_table::Table::new().width()
}

/// `k` is where `name` first stands in `hs`.
pub open spec fn first_at(hs: Seq<Seq<char>>, name: Seq<char>, k: int) -> bool {
    &&& 0 <= k < hs.len()
    &&& hs[k] == name
    &&& forall|j: int| 0 <= j < k ==> hs[j] != name
}

/// Where `name` first stands in `hs`, as a one-element list, or an empty
/// list when it is not there.
pub open spec fn first_position(hs: Seq<Seq<char>>, name: Seq<char>) -> Seq<usize> {
    if exists|k: int| first_at(hs, name, k) {
        seq![(choose|k: int| first_at(hs, name, k)) as usize]
    } else {
        Seq::empty()
    }
}

/// The columns of the job table aligned to the right: "Id", then "#".
pub open spec fn right_columns(hs: Seq<Seq<char>>) -> Seq<usize> {
    first_position(hs, "Id"@) + first_position(hs, "#"@)
}

/// The text of the job table for `jobs`, seen from `now`, at the width
/// `width`.
pub open spec fn job_table_text(
    jobs: Seq<Job>,
    platform: Option<Platform>,
    now: int,
    width: Option<u16>,
) -> Seq<char> {
    let hs = table_headers(platform);
    comfy_table_text(
        hs,
        Seq::new(jobs.len(), |k: int| table_row(jobs[k], k, platform, now)),
        right_columns(hs),
        width,
    )
}

proof fn lemma_first_position(hs: Seq<Seq<char>>, name: Seq<char>, r: Option<usize>)
    requires
        match r {
            Some(k) => first_at(hs, name, k as int),
            None => forall|j: int| 0 <= j < hs.len() ==> hs[j] != name,
        },
    ensures
        first_position(hs, name) == (match r {
            Some(k) => seq![k],
            None => Seq::<usize>::empty(),
        }),
{
    match r {
        Some(k) => {
            assert(first_at(hs, name, k as int));
            let c = choose|c: int| first_at(hs, name, c);
            assert(first_at(hs, name, c));
            if c < k {
                assert(hs[c] != name);
            }
            if k < c {
                assert(hs[k as int] != name);
            }
            assert(c == k);
        },
        None => {
            assert(!exists|k: int| first_at(hs, name, k));
        },
    }
}

/// The job table: the rows of `table_rows_at`, seen from the time of the
/// call, with the "Id" and "#" columns aligned to the right, laid out for
/// the width of the terminal, framed with one row per job.
pub fn render_table(jobs: &[Job], platform: Option<Platform>) -> (r: String)
    requires
        table_defined(jobs@, platform),
    ensures
        exists|now: int, width: Option<u16>| r@ == job_table_text(jobs@, platform, now, width),
        framed_table(r@, jobs@.len()),
{
    let now = now_unix();
    let (headers, rows) = table_rows_at(jobs, platform, now);
    let mut right: Vec<usize> = Vec::new();
    let id = position_of(&headers, "Id");
    match id {
        Some(k) => right.push(k),
        None => {},
    }
    let hash = position_of(&headers, "#");
    match hash {
        Some(k) => right.push(k),
        None => {},
    }
    let width = terminal_width();
    let r = comfy_render(&headers, &rows, &right, width);
    proof {
        let hs = strings_view(headers@);
        lemma_first_position(hs, "Id"@, id);
        lemma_first_position(hs, "#"@, hash);
        assert(right@ =~= right_columns(hs));
        assert(rows_view(rows@) =~= Seq::new(
            jobs@.len(),
            |k: int| table_row(jobs@[k], k, platform, now as int),
        ));
        assert(r@ == job_table_text(jobs@, platform, now as int, width));
    }
    r
}


/// The detailed view tells the three ratings apart: its Rating line reads
/// "liked" for a liked job, "disliked" for a disliked one and "neutral" for
/// an unrated one. The line stands just before the Applied line, the note
/// and the closing rule.
pub proof fn lemma_rating_line(job: Job, now: int)
    ensures
        ({
            let lines = job_lines(job, now);
            let k = lines.len() - note_lines(job.note).len() - 4;
            &&& 0 <= k < lines.len()
            &&& job.liked == Some(true) ==> lines[k] == "  Rating:         "@ + "liked"@
            &&& job.liked == Some(false) ==> lines[k] == "  Rating:         "@ + "disliked"@
            &&& job.liked is None ==> lines[k] == "  Rating:         "@ + "neutral"@
        }),
{
    let tags = if job.tags@.len() == 0 {
        Seq::<Seq<char>>::empty()
    } else {
        seq!["  Tags: "@ + join(strings_view(job.tags@), ", "@)]
    };
    let front = seq![header_line(job, now)] + tags + seq!["  URL:  "@ + job.url@] + data_lines(
        job.raw,
        now,
    );
    let rating = "  Rating:         "@ + rating_word(job.liked);
    let applied = match job.applied_at {
        Some(t) => "  Applied:        "@ + relative_text(now, t as int),
        None => "  Applied:        no"@,
    };
    let notes = note_lines(job.note);
    let tail = seq![Seq::<char>::empty(), rule_line()];
    let lines = job_lines(job, now);
    assert(lines == front + seq![rating] + seq![applied] + notes + tail);
    assert(lines.len() == front.len() + notes.len() + 4);
    assert(lines[front.len() as int] == rating);
}

/// The Applied cell of a table row shows when the job was applied to, as
/// the relative time of `applied_at`, and is empty exactly when the job was
/// never applied to. It stands under the "Applied" header.
pub proof fn lemma_applied_cell(job: Job, i: int, p: Option<Platform>, now: int)
    ensures
        ({
            let row = table_row(job, i, p, now);
            let c: int = if p is None {
                4
            } else {
                3
            };
            &&& c < row.len()
            &&& c < table_headers(p).len()
            &&& table_headers(p)[c] == "Applied"@
            &&& match job.applied_at {
                Some(t) => row[c] == relative_text(now, t as int) && row[c].len() > 0,
                None => row[c] == Seq::<char>::empty(),
            }
        }),
{
    reveal_strlit("just now");
    reveal_strlit("m ago");
    reveal_strlit("h ago");
    reveal_strlit("d ago");
    reveal_strlit("w ago");
    let row = table_row(job, i, p, now);
    let c: int = if p is None {
        4
    } else {
        3
    };
    assert(c < row.len());
    assert(table_headers(p)[c] == "Applied"@);
    if let Some(t) = job.applied_at {
        assert("just now"@.len() == 8);
        assert("m ago"@.len() == 5);
        assert("h ago"@.len() == 5);
        assert("d ago"@.len() == 5);
        assert("w ago"@.len() == 5);
        assert(relative_text(now, t as int).len() > 0);
        assert(opt_relative(now, job.applied_at) == relative_text(now, t as int));
        assert(row[c] == relative_text(now, t as int));
    } else {
        reveal_strlit("");
        assert(""@ =~= Seq::<char>::empty());
        assert(opt_relative(now, job.applied_at) == ""@);
        assert(row[c] == Seq::<char>::empty());
    }
}


/// The Rating cell of a table row, under the "Rating" header, is a thumb up
/// for a liked job, a thumb down for a disliked one and empty for an
/// unrated one; the two thumbs differ.
pub proof fn lemma_rating_cell(job: Job, i: int, p: Option<Platform>, now: int)
    ensures
        ({
            let row = table_row(job, i, p, now);
            let c: int = if p is None {
                5
            } else {
                4
            };
            &&& c < row.len()
            &&& c < table_headers(p).len()
            &&& table_headers(p)[c] == "Rating"@
            &&& job.liked == Some(true) ==> row[c] == "\u{1f44d}"@
            &&& job.liked == Some(false) ==> row[c] == "\u{1f44e}"@
            &&& job.liked is None ==> row[c] == Seq::<char>::empty()
            &&& "\u{1f44d}"@ != "\u{1f44e}"@
        }),
{
    reveal_strlit("");
    reveal_strlit("\u{1f44d}");
    reveal_strlit("\u{1f44e}");
    assert(""@ =~= Seq::<char>::empty());
    assert("\u{1f44d}"@[0] != "\u{1f44e}"@[0]);
}

} // verus!
