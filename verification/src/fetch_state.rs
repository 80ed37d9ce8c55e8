//! Counters a scraper keeps while it walks a listing.

use crate::text::{
    chars_of, dec, decimal_vec, eq_vec, pad_left, pad_right, push_all, push_padded_left,
    push_padded_right, push_str, slice_vec, string_of, strings_view, take_chars,
};
use vstd::prelude::*;

verus! {

/// One thing a scraper counts: a new job, a job already stored, a batch of
/// `n` jobs already stored, or a skipped job.
#[derive(Debug, Clone, Copy, PartialEq, Eq, Structural)]
pub enum Tally {
    New,
    Existing,
    ExistingN(usize),
    Skipped,
}

/// The counters (new, existing, skipped) after one more tally.
pub open spec fn tallied(c: (nat, nat, nat), t: Tally) -> (nat, nat, nat) {
    match t {
        Tally::New => (c.0 + 1, c.1, c.2),
        Tally::Existing => (c.0, c.1 + 1, c.2),
        Tally::ExistingN(n) => (c.0, c.1 + n as nat, c.2),
        Tally::Skipped => (c.0, c.1, c.2 + 1),
    }
}

/// The counters after the tallies `ts`, in order, starting from `c`.
pub open spec fn tallied_all(c: (nat, nat, nat), ts: Seq<Tally>) -> (nat, nat, nat)
    decreases ts.len(),
{
    if ts.len() == 0 {
        c
    } else {
        tallied(tallied_all(c, ts.drop_last()), ts.last())
    }
}

/// How many of `ts` are new jobs.
pub open spec fn new_tallies(ts: Seq<Tally>) -> nat
    decreases ts.len(),
{
    if ts.len() == 0 {
        0
    } else {
        new_tallies(ts.drop_last()) + if ts.last() == Tally::New {
            1nat
        } else {
            0nat
        }
    }
}

/// How many jobs already stored `ts` counts: one for each single job, `n`
/// for each batch of `n`.
pub open spec fn existing_tallies(ts: Seq<Tally>) -> nat
    decreases ts.len(),
{
    if ts.len() == 0 {
        0
    } else {
        existing_tallies(ts.drop_last()) + match ts.last() {
            Tally::Existing => 1nat,
            Tally::ExistingN(n) => n as nat,
            _ => 0nat,
        }
    }
}

/// How many of `ts` are skipped jobs.
pub open spec fn skipped_tallies(ts: Seq<Tally>) -> nat
    decreases ts.len(),
{
    if ts.len() == 0 {
        0
    } else {
        skipped_tallies(ts.drop_last()) + if ts.last() == Tally::Skipped {
            1nat
        } else {
            0nat
        }
    }
}

/// The running totals: counters that start at zero (`FetchState::new`) and
/// take the tallies `ts` in any order (`inc_new`, `inc_existing`,
/// `inc_existing_n`, `inc_skipped`) hold the number of new jobs, the number
/// of jobs already stored (batches counted by their size) and the number of
/// skipped jobs, and the jobs checked are all of these together.
pub proof fn lemma_running_totals(ts: Seq<Tally>)
    ensures
        tallied_all((0nat, 0nat, 0nat), ts) == (
            new_tallies(ts),
            existing_tallies(ts),
            skipped_tallies(ts),
        ),
        tallied_all((0nat, 0nat, 0nat), ts).0 + tallied_all((0nat, 0nat, 0nat), ts).1
            + tallied_all((0nat, 0nat, 0nat), ts).2 == new_tallies(ts) + existing_tallies(ts)
            + skipped_tallies(ts),
    decreases ts.len(),
{
    if ts.len() > 0 {
        lemma_running_totals(ts.drop_last());
    }
}

/// How many listed jobs were new, already stored, or skipped.
#[derive(Debug, Clone, Copy)]
pub struct FetchState {
    new: usize,
    existing: usize,
    skipped: usize,
}

impl FetchState {
    pub closed spec fn new_spec(&self) -> nat {
        self.new as nat
    }

    pub closed spec fn existing_spec(&self) -> nat {
        self.existing as nat
    }

    pub closed spec fn skipped_spec(&self) -> nat {
        self.skipped as nat
    }

    /// Every job looked at: new, existing and skipped together.
    pub open spec fn checked_spec(&self) -> nat {
        self.new_spec() + self.existing_spec() + self.skipped_spec()
    }

    /// The counters as (new, existing, skipped).
    pub open spec fn counts(&self) -> (nat, nat, nat) {
        (self.new_spec(), self.existing_spec(), self.skipped_spec())
    }

    /// All counters at zero.
    pub fn new() -> (r: Self)
        ensures
            r.new_spec() == 0,
            r.existing_spec() == 0,
            r.skipped_spec() == 0,
            r.counts() == (0nat, 0nat, 0nat),
    {
        FetchState { new: 0, existing: 0, skipped: 0 }
    }

    /// Counts one more new job.
    pub fn inc_new(&mut self)
        requires
            old(self).new_spec() < usize::MAX,
        ensures
            final(self).checked_spec() == old(self).checked_spec() + 1,
            final(self).new_spec() == old(self).new_spec() + 1,
            final(self).existing_spec() == old(self).existing_spec(),
            final(self).skipped_spec() == old(self).skipped_spec(),
            final(self).counts() == tallied(old(self).counts(), Tally::New),
    {
        self.new = self.new + 1;
    }

    /// Counts one more job that was already stored.
    pub fn inc_existing(&mut self)
        requires
            old(self).existing_spec() < usize::MAX,
        ensures
            final(self).checked_spec() == old(self).checked_spec() + 1,
            final(self).new_spec() == old(self).new_spec(),
            final(self).existing_spec() == old(self).existing_spec() + 1,
            final(self).skipped_spec() == old(self).skipped_spec(),
            final(self).counts() == tallied(old(self).counts(), Tally::Existing),
    {
        self.existing = self.existing + 1;
    }

    /// Counts `n` more jobs that were already stored.
    pub fn inc_existing_n(&mut self, n: usize)
        requires
            old(self).existing_spec() + n <= usize::MAX,
        ensures
            final(self).checked_spec() == old(self).checked_spec() + n,
            final(self).new_spec() == old(self).new_spec(),
            final(self).existing_spec() == old(self).existing_spec() + n,
            final(self).skipped_spec() == old(self).skipped_spec(),
            final(self).counts() == tallied(old(self).counts(), Tally::ExistingN(n)),
    {
        self.existing = self.existing + n;
    }

    /// Counts one more skipped job.
    pub fn inc_skipped(&mut self)
        requires
            old(self).skipped_spec() < usize::MAX,
        ensures
            final(self).checked_spec() == old(self).checked_spec() + 1,
            final(self).new_spec() == old(self).new_spec(),
            final(self).existing_spec() == old(self).existing_spec(),
            final(self).skipped_spec() == old(self).skipped_spec() + 1,
            final(self).counts() == tallied(old(self).counts(), Tally::Skipped),
    {
        self.skipped = self.skipped + 1;
    }

    /// Every job looked at so far.
    pub fn checked(&self) -> (r: usize)
        requires
            self.checked_spec() <= usize::MAX,
        ensures
            r == self.checked_spec(),
    {
        self.existing + self.new + self.skipped
    }

    pub fn new_count(&self) -> (r: usize)
        ensures
            r == self.new_spec(),
    {
        self.new
    }

    pub fn existing(&self) -> (r: usize)
        ensures
            r == self.existing_spec(),
    {
        self.existing
    }

    /// "Total checked: N (a new, b existing, c skipped)".
    pub open spec fn summary_text(&self) -> Seq<char> {
        "Total checked: "@ + dec(self.checked_spec()) + " ("@ + dec(self.new_spec()) + " new, "@
            + dec(self.existing_spec()) + " existing, "@ + dec(self.skipped_spec())
            + " skipped)"@
    }

    pub fn summary(&self) -> (r: String)
        requires
            self.checked_spec() <= usize::MAX,
        ensures
            r@ == self.summary_text(),
    {
        let mut out: Vec<char> = Vec::new();
        push_str(&mut out, "Total checked: ");
        push_all(&mut out, &decimal_vec(self.checked() as u64));
        push_str(&mut out, " (");
        push_all(&mut out, &decimal_vec(self.new as u64));
        push_str(&mut out, " new, ");
        push_all(&mut out, &decimal_vec(self.existing as u64));
        push_str(&mut out, " existing, ");
        push_all(&mut out, &decimal_vec(self.skipped as u64));
        push_str(&mut out, " skipped)");
        assert(out@ =~= self.summary_text());
        string_of(&out)
    }

    /// The progress line after the items checked so far.
    pub open spec fn progress_text(&self, total: Option<usize>, item_name: Seq<char>) -> Seq<char> {
        progress_text_of(self.checked_spec(), total, item_name)
    }

    pub fn progress_line(&self, total: Option<usize>, item_name: &str) -> (r: String)
        requires
            self.checked_spec() <= usize::MAX,
        ensures
            r@ == self.progress_text(total, item_name@),
    {
        progress_line_of(self.checked(), total, item_name)
    }
}

/// "\r    Progress: " then `count` right-aligned in five columns, "/total"
/// left-aligned in five when a total is known, and the item name cut and
/// padded to forty characters.
pub open spec fn progress_text_of(count: nat, total: Option<usize>, item_name: Seq<char>) -> Seq<char> {
    "\r    Progress: "@ + pad_left(dec(count), 5) + match total {
        Some(t) => "/"@ + pad_right(dec(t as nat), 5),
        None => Seq::empty(),
    } + " "@ + pad_right(take_chars(item_name, 40), 40)
}

/// The progress line for `count` items out of `total`, at `item_name`.
pub fn progress_line_of(count: usize, total: Option<usize>, item_name: &str) -> (r: String)
    ensures
        r@ == progress_text_of(count as nat, total, item_name@),
{
    let mut out: Vec<char> = Vec::new();
    push_str(&mut out, "\r    Progress: ");
    push_padded_left(&mut out, &decimal_vec(count as u64), 5);
    match total {
        Some(t) => {
            push_str(&mut out, "/");
            push_padded_right(&mut out, &decimal_vec(t as u64), 5);
        },
        None => {},
    }
    push_str(&mut out, " ");
    let name = chars_of(item_name);
    let cut = if name.len() <= 40 {
        name
    } else {
        slice_vec(&name, 0, 40)
    };
    push_padded_right(&mut out, &cut, 40);
    assert(out@ =~= progress_text_of(count as nat, total, item_name@));
    string_of(&out)
}

impl Default for FetchState {
    fn default() -> (r: Self)
        ensures
            r.new_spec() == 0,
            r.existing_spec() == 0,
            r.skipped_spec() == 0,
    {
        FetchState::new()
    }
}

/// What a scraper does with a search card.
#[derive(Debug, Clone, Copy, PartialEq, Eq, Structural)]
pub enum CardStep {
    /// The job is stored already: count it as existing.
    Existing,
    /// The job was rejected before: count it as skipped.
    Skipped,
    /// Fetch the job's detail.
    Fetch,
}

/// A stored job is counted as existing; a rejected one as skipped; any
/// other is fetched.
pub fn card_step(stored: bool, rejected: bool) -> (r: CardStep)
    ensures
        r == (if stored {
            CardStep::Existing
        } else if rejected {
            CardStep::Skipped
        } else {
            CardStep::Fetch
        }),
{
    if stored {
        CardStep::Existing
    } else if rejected {
        CardStep::Skipped
    } else {
        CardStep::Fetch
    }
}

/// What storing a job did.
#[derive(Debug, Clone, Copy, PartialEq, Eq, Structural)]
pub enum UpsertOutcome {
    New,
    Updated,
    Duplicate,
}

impl FetchState {
    /// Counts a stored job: new when it was new, existing otherwise.
    pub fn count_stored(&mut self, outcome: UpsertOutcome)
        requires
            old(self).new_spec() < usize::MAX,
            old(self).existing_spec() < usize::MAX,
        ensures
            final(self).checked_spec() == old(self).checked_spec() + 1,
            outcome == UpsertOutcome::New ==> final(self).new_spec() == old(self).new_spec() + 1
                && final(self).existing_spec() == old(self).existing_spec(),
            outcome != UpsertOutcome::New ==> final(self).existing_spec() == old(
                self,
            ).existing_spec() + 1 && final(self).new_spec() == old(self).new_spec(),
            final(self).skipped_spec() == old(self).skipped_spec(),
    {
        match outcome {
            UpsertOutcome::New => self.inc_new(),
            _ => self.inc_existing(),
        }
    }
}

/// The positions, in order, of the ids among the first `n` of `ids` that
/// are listed in `new_ids`: the search results not seen before.
pub open spec fn new_positions_spec(ids: Seq<Seq<char>>, new_ids: Seq<Seq<char>>, n: nat) -> Seq<int>
    decreases n,
{
    if n == 0 {
        Seq::empty()
    } else {
        let rest = new_positions_spec(ids, new_ids, (n - 1) as nat);
        if new_ids.contains(ids[n - 1]) {
            rest.push(n - 1)
        } else {
            rest
        }
    }
}

/// Whether `id` is one of `list`.
fn is_listed(id: &String, list: &Vec<String>) -> (r: bool)
    ensures
        r == strings_view(list@).contains(id@),
{
    let v = chars_of(id.as_str());
    let mut i: usize = 0;
    while i < list.len()
        invariant
            i <= list.len(),
            v@ == id@,
            forall|k: int| 0 <= k < i ==> (#[trigger] list@[k])@ != id@,
        decreases list.len() - i,
    {
        if eq_vec(&chars_of(list[i].as_str()), &v) {
            assert(strings_view(list@)[i as int] == id@);
            return true;
        }
        i = i + 1;
    }
    proof {
        assert forall|k: int| 0 <= k < strings_view(list@).len() implies strings_view(list@)[k]
            != id@ by {
            assert(list@[k]@ != id@);
        }
    }
    false
}

/// The positions of the results whose ids are among `new_ids`, in order;
/// every other result was seen before.
pub fn new_positions(ids: &Vec<String>, new_ids: &Vec<String>) -> (r: Vec<usize>)
    ensures
        r@.map_values(|p: usize| p as int) == new_positions_spec(
            strings_view(ids@),
            strings_view(new_ids@),
            ids.len() as nat,
        ),
        r.len() <= ids.len(),
{
    let mut out: Vec<usize> = Vec::new();
    let mut i: usize = 0;
    while i < ids.len()
        invariant
            i <= ids.len(),
            out.len() <= i,
            out@.map_values(|p: usize| p as int) == new_positions_spec(
                strings_view(ids@),
                strings_view(new_ids@),
                i as nat,
            ),
        decreases ids.len() - i,
    {
        let ghost before = out@;
        if is_listed(&ids[i], new_ids) {
            out.push(i);
            assert(out@.map_values(|p: usize| p as int) =~= before.map_values(|p: usize| p as int).push(
                i as int,
            ));
        }
        i = i + 1;
    }
    out
}

} // verus!
