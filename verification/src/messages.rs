//! What the commands tell the user.

use crate::budget::opt_string_view;
use crate::text::{
    chars_of, debug_quote, debug_quoted, dec, dec_int, lines_of, lines_vec, push_decimal, push_i64, push_str, string_of,
    strings_view, vecs_view,
};
use crate::urls::{host_of, host_spec};
use vstd::prelude::*;

verus! {

/// "s" unless there is exactly one.
pub open spec fn plural(n: nat) -> Seq<char> {
    if n == 1 {
        Seq::empty()
    } else {
        "s"@
    }
}

fn push_plural(out: &mut Vec<char>, n: u64)
    ensures
        final(out)@ == old(out)@ + plural(n as nat),
{
    if n != 1 {
        out.push('s');
        assert(out@ =~= old(out)@ + "s"@) by {
            reveal_strlit("s");
        }
    } else {
        assert(old(out)@ + plural(n as nat) =~= old(out)@);
    }
}

/// "Deleted N job(s)".
pub fn deleted_message(n: u64) -> (r: String)
    ensures
        r@ == "Deleted "@ + dec(n as nat) + " job"@ + plural(n as nat),
{
    let mut out = chars_of("Deleted ");
    push_decimal(&mut out, n);
    push_str(&mut out, " job");
    push_plural(&mut out, n);
    string_of(&out)
}

/// How the user rated jobs.
#[derive(Debug, Clone, Copy, PartialEq, Eq, Structural)]
pub enum RatingChange {
    Like,
    Dislike,
    Neutral,
}

pub open spec fn rating_message_spec(c: RatingChange, n: nat) -> Seq<char> {
    match c {
        RatingChange::Like => "Liked "@ + dec(n) + " job"@ + plural(n),
        RatingChange::Dislike => "Disliked "@ + dec(n) + " job"@ + plural(n),
        RatingChange::Neutral => "Reset "@ + dec(n) + " job"@ + plural(n) + " to neutral"@,
    }
}

/// "Liked N job(s)", "Disliked N job(s)" or "Reset N job(s) to neutral".
pub fn rating_message(c: RatingChange, n: u64) -> (r: String)
    ensures
        r@ == rating_message_spec(c, n as nat),
{
    let mut out: Vec<char> = Vec::new();
    match c {
        RatingChange::Like => push_str(&mut out, "Liked "),
        RatingChange::Dislike => push_str(&mut out, "Disliked "),
        RatingChange::Neutral => push_str(&mut out, "Reset "),
    }
    push_decimal(&mut out, n);
    push_str(&mut out, " job");
    push_plural(&mut out, n);
    match c {
        RatingChange::Neutral => push_str(&mut out, " to neutral"),
        _ => {},
    }
    assert(out@ =~= rating_message_spec(c, n as nat));
    string_of(&out)
}

/// The lines printed after applying to job `id`: with a non-empty note,
/// a heading and the note's lines indented by two spaces.
pub open spec fn applied_lines_spec(id: int, note: Option<Seq<char>>) -> Seq<Seq<char>> {
    match note {
        Some(n) => if n.len() > 0 {
            seq!["Job "@ + dec_int(id) + " marked applied with note:"@] + lines_of(n).map_values(
                |l: Seq<char>| "  "@ + l,
            )
        } else {
            seq!["Job "@ + dec_int(id) + " marked applied"@]
        },
        None => seq!["Job "@ + dec_int(id) + " marked applied"@],
    }
}

pub fn applied_lines(id: i64, note: &Option<String>) -> (r: Vec<String>)
    ensures
        strings_view(r@) == applied_lines_spec(id as int, opt_string_view(*note)),
{
    let mut head = chars_of("Job ");
    push_i64(&mut head, id);
    let mut out: Vec<String> = Vec::new();
    let with_note = match note {
        Some(n) => !n.as_str().is_empty(),
        None => false,
    };
    if !with_note {
        push_str(&mut head, " marked applied");
        out.push(string_of(&head));
        assert(strings_view(out@) =~= applied_lines_spec(id as int, opt_string_view(*note)));
        return out;
    }
    push_str(&mut head, " marked applied with note:");
    out.push(string_of(&head));
    let n = match note {
        Some(n) => chars_of(n.as_str()),
        None => Vec::new(),
    };
    let ls = lines_vec(&n);
    let ghost lv = vecs_view(ls@);
    let ghost h = head@;
    assert(strings_view(out@) =~= seq![h]);
    let mut i: usize = 0;
    while i < ls.len()
        invariant
            i <= ls.len(),
            lv == vecs_view(ls@),
            strings_view(out@) == seq![h] + lv.subrange(0, i as int).map_values(
                |l: Seq<char>| "  "@ + l,
            ),
        decreases ls.len() - i,
    {
        let mut line = chars_of("  ");
        crate::text::push_all(&mut line, &ls[i]);
        let s = string_of(&line);
        let ghost o0 = strings_view(out@);
        out.push(s);
        assert(strings_view(out@) =~= o0.push(s@));
        assert(lv.subrange(0, i + 1).map_values(|l: Seq<char>| "  "@ + l) =~= lv.subrange(
            0,
            i as int,
        ).map_values(|l: Seq<char>| "  "@ + l).push("  "@ + lv[i as int]));
        i = i + 1;
    }
    assert(lv.subrange(0, i as int) =~= lv);
    out
}

/// "Classified N job(s): L liked, D disliked".
pub fn classified_message(total: u64, liked: u64, disliked: u64) -> (r: String)
    ensures
        r@ == "Classified "@ + dec(total as nat) + " job"@ + plural(total as nat) + ": "@ + dec(
            liked as nat,
        ) + " liked, "@ + dec(disliked as nat) + " disliked"@,
{
    let mut out = chars_of("Classified ");
    push_decimal(&mut out, total);
    push_str(&mut out, " job");
    push_plural(&mut out, total);
    push_str(&mut out, ": ");
    push_decimal(&mut out, liked);
    push_str(&mut out, " liked, ");
    push_decimal(&mut out, disliked);
    push_str(&mut out, " disliked");
    string_of(&out)
}

/// What `jobsearch init` reports for a start page.
#[derive(Debug, Clone, Copy, PartialEq, Eq, Structural)]
pub enum TabStatus {
    /// A tab on the page's host was open before.
    AlreadyOpen,
    /// A tab on the page's host is open now.
    Opened,
    /// No tab on the page's host shows up yet.
    Loading,
}

/// Some tab's URL has the host of `url` (both read by `host_of`).
pub open spec fn host_among(url: Seq<char>, tabs: Seq<String>) -> bool {
    exists|i: int| 0 <= i < tabs.len() && host_spec(tabs[i]@) is Some && host_spec(#[trigger] tabs[i]@) == host_spec(url)
}

pub open spec fn tab_status_spec(url: Seq<char>, before: Seq<String>, after: Seq<String>) -> TabStatus {
    if host_among(url, before) {
        TabStatus::AlreadyOpen
    } else if host_among(url, after) {
        TabStatus::Opened
    } else {
        TabStatus::Loading
    }
}

fn host_among_exec(url_host: &Option<String>, tabs: &Vec<String>, Ghost(url): Ghost<Seq<char>>) -> (r: bool)
    requires
        opt_string_view(*url_host) == host_spec(url),
    ensures
        r == host_among(url, tabs@),
{
    let mut i: usize = 0;
    while i < tabs.len()
        invariant
            i <= tabs.len(),
            opt_string_view(*url_host) == host_spec(url),
            forall|j: int| 0 <= j < i ==> !(host_spec(tabs@[j]@) is Some && host_spec(#[trigger] tabs@[j]@) == host_spec(url)),
        decreases tabs.len() - i,
    {
        let h = host_of(tabs[i].as_str());
        let same = match (&h, url_host) {
            (Some(a), Some(b)) => crate::text::eq_vec(&chars_of(a.as_str()), &chars_of(b.as_str())),
            (Some(_), None) => false,
            (None, _) => false,
        };
        if same {
            return true;
        }
        i = i + 1;
    }
    false
}

/// Whether a start page's tab was open before, is open now, or is loading.
pub fn tab_status(url: &str, before: &Vec<String>, after: &Vec<String>) -> (r: TabStatus)
    ensures
        r == tab_status_spec(url@, before@, after@),
{
    let host = host_of(url);
    if host_among_exec(&host, before, Ghost(url@)) {
        TabStatus::AlreadyOpen
    } else if host_among_exec(&host, after, Ghost(url@)) {
        TabStatus::Opened
    } else {
        TabStatus::Loading
    }
}

/// The line `jobsearch init` prints for a start page.
pub open spec fn tab_line_spec(url: Seq<char>, s: TabStatus) -> Seq<char> {
    "  "@ + url + match s {
        TabStatus::AlreadyOpen => " - already open, skipping"@,
        TabStatus::Opened => " - opened"@,
        TabStatus::Loading => " - opened (loading...)"@,
    }
}

pub fn tab_line(url: &str, s: TabStatus) -> (r: String)
    ensures
        r@ == tab_line_spec(url@, s),
{
    let mut out = chars_of("  ");
    push_str(&mut out, url);
    match s {
        TabStatus::AlreadyOpen => push_str(&mut out, " - already open, skipping"),
        TabStatus::Opened => push_str(&mut out, " - opened"),
        TabStatus::Loading => push_str(&mut out, " - opened (loading...)"),
    }
    assert(out@ =~= tab_line_spec(url@, s));
    string_of(&out)
}

/// The AppleScript that shows a desktop notification with `title` and
/// `message`, each quoted as `Debug` writes strings.
pub open spec fn notification_script_spec(title: Seq<char>, message: Seq<char>) -> Seq<char> {
    "display notification "@ + debug_quoted(message) + " with title "@ + debug_quoted(title)
}

pub fn notification_script(title: &str, message: &str) -> (r: String)
    ensures
        r@ == notification_script_spec(title@, message@),
{
    let mut out = chars_of("display notification ");
    push_str(&mut out, debug_quote(message).as_str());
    push_str(&mut out, " with title ");
    push_str(&mut out, debug_quote(title).as_str());
    string_of(&out)
}

} // verus!
