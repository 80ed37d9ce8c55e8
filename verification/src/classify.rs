//! Which jobs a classification run looks at, and how its ratings are
//! sorted out.

use crate::models::{platform_name, Job, JobFilter, Rating};
use crate::text::{chars_of, dec_int, push_i64, push_str, string_of};
use vstd::prelude::*;

verus! {

/// Narrows `filter` to jobs not rated yet, unless `force` asks to look at
/// every job the filter keeps.
pub fn with_default_neutral(filter: JobFilter, force: bool) -> (r: JobFilter)
    ensures
        r.platform == filter.platform,
        r.applied == filter.applied,
        r.remote == filter.remote,
        r.recency == filter.recency,
        r.rating == (if force {
            filter.rating
        } else {
            Some(Rating::Neutral)
        }),
{
    let mut filter = filter;
    if !force {
        filter.rating = Some(Rating::Neutral);
    }
    filter
}


/// The ids of the first `n` jobs whose rating is `rating`, in order.
pub open spec fn rated_ids(jobs: Seq<Job>, ratings: Seq<Rating>, rating: Rating, n: nat) -> Seq<i64>
    decreases n,
{
    if n == 0 {
        Seq::empty()
    } else {
        let rest = rated_ids(jobs, ratings, rating, (n - 1) as nat);
        if ratings[n - 1] == rating {
            rest.push(jobs[n - 1].id)
        } else {
            rest
        }
    }
}

/// The ids of the jobs rated liked and of those rated disliked, each in the
/// order of `jobs`; `ratings[i]` is the rating of `jobs[i]`, never neutral.
pub fn split_ratings(jobs: &Vec<Job>, ratings: &Vec<Rating>) -> (r: (Vec<i64>, Vec<i64>))
    requires
        ratings.len() == jobs.len(),
        forall|i: int| 0 <= i < ratings.len() ==> ratings[i] != Rating::Neutral,
    ensures
        r.0@ == rated_ids(jobs@, ratings@, Rating::Liked, jobs.len() as nat),
        r.1@ == rated_ids(jobs@, ratings@, Rating::Disliked, jobs.len() as nat),
{
    let mut liked: Vec<i64> = Vec::new();
    let mut disliked: Vec<i64> = Vec::new();
    let mut i: usize = 0;
    while i < jobs.len()
        invariant
            i <= jobs.len(),
            ratings.len() == jobs.len(),
            forall|k: int| 0 <= k < ratings.len() ==> ratings[k] != Rating::Neutral,
            liked@ == rated_ids(jobs@, ratings@, Rating::Liked, i as nat),
            disliked@ == rated_ids(jobs@, ratings@, Rating::Disliked, i as nat),
        decreases jobs.len() - i,
    {
        match ratings[i] {
            Rating::Liked => liked.push(jobs[i].id),
            Rating::Disliked => disliked.push(jobs[i].id),
            Rating::Neutral => {},
        }
        i = i + 1;
    }
    (liked, disliked)
}

/// The line that lists a job liked in this run: "  [id] title | platform".
pub open spec fn liked_line_spec(job: Job) -> Seq<char> {
    "  ["@ + dec_int(job.id as int) + "] "@ + job.title@ + " | "@ + platform_name(job.platform)
}

pub fn liked_line(job: &Job) -> (r: String)
    ensures
        r@ == liked_line_spec(*job),
{
    let mut out = chars_of("  [");
    push_i64(&mut out, job.id);
    push_str(&mut out, "] ");
    push_str(&mut out, job.title.as_str());
    push_str(&mut out, " | ");
    push_str(&mut out, job.platform.to_string().as_str());
    string_of(&out)
}

} // verus!
