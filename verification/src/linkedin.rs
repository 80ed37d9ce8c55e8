//! LinkedIn: the search filters read from a search URL, the Voyager API
//! query and URL built from them, and the jobs built from cards and their
//! details.

use crate::budget::{budget_parse_spec, budget_text, opt_string_view, Budget};
use crate::clock::{millis_to_secs, millis_to_secs_result, now_unix};
use crate::models::{Data, Job, LinkedInJobDetail, Platform};
use crate::text::{
    chars_of, copy_string, dec, join, join_strings, parse_u64_spec, parse_u64_str, push_all,
    push_decimal, push_str, slice_vec, starts_with, string_of, strings_view,
};
use crate::urls::{parse_url, url_parts_result, url_parts_view};
use vstd::prelude::*;

verus! {

pub const VOYAGER_BASE_URL: &'static str =
    "https://www.linkedin.com/voyager/api/voyagerJobsDashJobCards";

pub const VOYAGER_DECORATION_ID: &'static str =
    "com.linkedin.voyager.dash.deco.jobs.search.JobSearchCardsCollection-220";

pub const JOB_VIEW_BASE_URL: &'static str = "https://www.linkedin.com/jobs/view/";

/// Job cards asked for per Voyager page.
pub const PAGE_SIZE: usize = 100;

pub const DEFAULT_GEO_ID: &'static str = "92000000";

pub const DEFAULT_INDUSTRY_ID: &'static str = "4";

pub const DEFAULT_WORKPLACE_TYPE: &'static str = "2";

pub const DEFAULT_SORT_BY: &'static str = "DD";

pub const DEFAULT_TIME_POSTED_RANGE: &'static str = "r2592000";

/// The default job-title filter ids.
pub open spec fn default_title_ids() -> Seq<Seq<char>> {
    seq!["9"@, "25201"@, "30128"@]
}

/// The query parameters a search URL may carry.
pub open spec fn supported_param(k: Seq<char>) -> bool {
    k == "geoId"@ || k == "f_T"@ || k == "f_I"@ || k == "f_WT"@ || k == "f_TPR"@ || k
        == "sortBy"@
}

/// The search filters.
#[derive(Debug, Clone)]
pub struct LinkedInParams {
    pub geo_id: String,
    pub title_ids: Vec<String>,
    pub industry_ids: Vec<String>,
    pub workplace_types: Vec<String>,
    pub time_posted_range: String,
}

/// The filters over character sequences.
pub struct ParamsView {
    pub geo_id: Seq<char>,
    pub title_ids: Seq<Seq<char>>,
    pub industry_ids: Seq<Seq<char>>,
    pub workplace_types: Seq<Seq<char>>,
    pub time_posted_range: Seq<char>,
}

impl View for LinkedInParams {
    type V = ParamsView;

    open spec fn view(&self) -> ParamsView {
        ParamsView {
            geo_id: self.geo_id@,
            title_ids: strings_view(self.title_ids@),
            industry_ids: strings_view(self.industry_ids@),
            workplace_types: strings_view(self.workplace_types@),
            time_posted_range: self.time_posted_range@,
        }
    }
}

pub open spec fn default_params() -> ParamsView {
    ParamsView {
        geo_id: DEFAULT_GEO_ID@,
        title_ids: default_title_ids(),
        industry_ids: seq![DEFAULT_INDUSTRY_ID@],
        workplace_types: seq![DEFAULT_WORKPLACE_TYPE@],
        time_posted_range: DEFAULT_TIME_POSTED_RANGE@,
    }
}

fn strings_from(names: &Vec<&str>) -> (r: Vec<String>)
    ensures
        strings_view(r@) == names@.map_values(|x: &str| x@),
{
    let mut out: Vec<String> = Vec::new();
    let mut i: usize = 0;
    while i < names.len()
        invariant
            i <= names.len(),
            strings_view(out@) == names@.subrange(0, i as int).map_values(|x: &str| x@),
        decreases names.len() - i,
    {
        let s = string_of(&chars_of(names[i]));
        let ghost o0 = out@;
        out.push(s);
        assert(strings_view(out@) =~= strings_view(o0).push(s@));
        assert(names@.subrange(0, i + 1).map_values(|x: &str| x@) =~= names@.subrange(
            0,
            i as int,
        ).map_values(|x: &str| x@).push(names@[i as int]@));
        i = i + 1;
    }
    assert(names@.subrange(0, i as int) =~= names@);
    out
}

impl Default for LinkedInParams {
    fn default() -> (r: LinkedInParams)
        ensures
            r@ == default_params(),
    {
        let titles = strings_from(&vec!["9", "25201", "30128"]);
        let industries = strings_from(&vec![DEFAULT_INDUSTRY_ID]);
        let workplaces = strings_from(&vec![DEFAULT_WORKPLACE_TYPE]);
        let r = LinkedInParams {
            geo_id: string_of(&chars_of(DEFAULT_GEO_ID)),
            title_ids: titles,
            industry_ids: industries,
            workplace_types: workplaces,
            time_posted_range: string_of(&chars_of(DEFAULT_TIME_POSTED_RANGE)),
        };
        assert(r@.title_ids =~= default_title_ids());
        assert(r@.industry_ids =~= seq![DEFAULT_INDUSTRY_ID@]);
        assert(r@.workplace_types =~= seq![DEFAULT_WORKPLACE_TYPE@]);
        r
    }
}

/// Why a search URL was refused.
#[derive(Debug, Clone)]
pub enum LinkedInUrlError {
    /// The URL does not parse.
    InvalidUrl,
    /// The URL carries a query parameter the search does not know.
    UnsupportedParam { key: String },
    /// The time range does not start with 'r'.
    BadTimeRange,
}

/// The value of the last pair with key `k`, when there is one (what a map
/// built from the pairs in order holds).
pub open spec fn last_value(q: Seq<(Seq<char>, Seq<char>)>, k: Seq<char>) -> Option<Seq<char>>
    decreases q.len(),
{
    if q.len() == 0 {
        None
    } else if q.last().0 == k {
        Some(q.last().1)
    } else {
        last_value(q.drop_last(), k)
    }
}

/// Index of the first `c` in `s`, or -1.
pub open spec fn first_index_of(s: Seq<char>, c: char) -> int
    decreases s.len(),
{
    if s.len() == 0 {
        -1
    } else if s[0] == c {
        0
    } else {
        let i = first_index_of(s.drop_first(), c);
        if i < 0 {
            -1
        } else {
            i + 1
        }
    }
}

pub proof fn lemma_first_index_of(s: Seq<char>, c: char)
    ensures
        -1 <= first_index_of(s, c) < s.len(),
        first_index_of(s, c) >= 0 ==> s[first_index_of(s, c)] == c,
        forall|j: int| 0 <= j < first_index_of(s, c) ==> s[j] != c,
        first_index_of(s, c) < 0 ==> forall|j: int| 0 <= j < s.len() ==> s[j] != c,
    decreases s.len(),
{
    if s.len() > 0 && s[0] != c {
        lemma_first_index_of(s.drop_first(), c);
        assert forall|j: int| 0 < j < s.len() implies s[j] == s.drop_first()[j - 1] by {}
    }
}

/// `s` split at every `c` (`str::split`): one part more than there are
/// separators.
pub open spec fn split_at_char(s: Seq<char>, c: char) -> Seq<Seq<char>>
    decreases s.len(),
{
    let i = first_index_of(s, c);
    if i < 0 {
        seq![s]
    } else {
        proof {
            lemma_first_index_of(s, c);
        }
        seq![s.subrange(0, i)] + split_at_char(s.subrange(i + 1, s.len() as int), c)
    }
}

/// A comma-separated list value, or the default when the key is absent.
pub open spec fn list_param(
    q: Seq<(Seq<char>, Seq<char>)>,
    k: Seq<char>,
    default: Seq<Seq<char>>,
) -> Seq<Seq<char>> {
    match last_value(q, k) {
        Some(v) => split_at_char(v, ','),
        None => default,
    }
}

/// A single value, or the default when the key is absent.
pub open spec fn one_param(q: Seq<(Seq<char>, Seq<char>)>, k: Seq<char>, default: Seq<char>) -> Seq<
    char,
> {
    match last_value(q, k) {
        Some(v) => v,
        None => default,
    }
}

/// The filters a search URL sets; the defaults for those it does not.
pub open spec fn params_of_query(q: Seq<(Seq<char>, Seq<char>)>) -> ParamsView {
    ParamsView {
        geo_id: one_param(q, "geoId"@, DEFAULT_GEO_ID@),
        title_ids: list_param(q, "f_T"@, default_title_ids()),
        industry_ids: list_param(q, "f_I"@, seq![DEFAULT_INDUSTRY_ID@]),
        workplace_types: list_param(q, "f_WT"@, seq![DEFAULT_WORKPLACE_TYPE@]),
        time_posted_range: one_param(q, "f_TPR"@, DEFAULT_TIME_POSTED_RANGE@),
    }
}

/// `key` is a key of the query that the search does not know.
pub open spec fn unsupported_key_of(q: Seq<(Seq<char>, Seq<char>)>, key: Seq<char>) -> bool {
    !supported_param(key) && exists|i: int| 0 <= i < q.len() && #[trigger] q[i].0 == key
}

/// Whether the query has a key the search does not know.
pub open spec fn has_unsupported(q: Seq<(Seq<char>, Seq<char>)>) -> bool {
    exists|i: int| 0 <= i < q.len() && !supported_param(#[trigger] q[i].0)
}

fn split_exec(v: &Vec<char>, c: char) -> (r: Vec<String>)
    ensures
        strings_view(r@) == split_at_char(v@, c),
    decreases v.len(),
{
    let mut i: usize = 0;
    while i < v.len() && v[i] != c
        invariant
            i <= v.len(),
            forall|j: int| 0 <= j < i ==> v@[j] != c,
        decreases v.len() - i,
    {
        i = i + 1;
    }
    proof {
        lemma_first_index_of(v@, c);
    }
    if i >= v.len() {
        assert(first_index_of(v@, c) < 0);
        let mut out: Vec<String> = Vec::new();
        out.push(string_of(v));
        assert(strings_view(out@) =~= seq![v@]);
        out
    } else {
        assert(first_index_of(v@, c) == i);
        let head = string_of(&slice_vec(v, 0, i));
        let tail = slice_vec(v, i + 1, v.len());
        let rest = split_exec(&tail, c);
        let mut out: Vec<String> = Vec::new();
        out.push(head);
        let mut k: usize = 0;
        while k < rest.len()
            invariant
                k <= rest.len(),
                strings_view(out@) == seq![v@.subrange(0, i as int)] + strings_view(rest@).subrange(
                    0,
                    k as int,
                ),
            decreases rest.len() - k,
        {
            let s = string_of(&chars_of(rest[k].as_str()));
            let ghost o0 = out@;
            out.push(s);
            assert(strings_view(out@) =~= strings_view(o0).push(s@));
            assert(strings_view(rest@).subrange(0, k + 1) =~= strings_view(rest@).subrange(
                0,
                k as int,
            ).push(rest@[k as int]@));
            k = k + 1;
        }
        assert(strings_view(rest@).subrange(0, k as int) =~= strings_view(rest@));
        out
    }
}

fn last_value_exec(q: &Vec<(String, String)>, k: &str) -> (r: Option<Vec<char>>)
    ensures
        crate::pattern::opt_chars(r) == last_value(q.deep_view(), k@),
{
    let key = chars_of(k);
    let mut j: usize = q.len();
    assert(q.deep_view().subrange(0, j as int) =~= q.deep_view());
    while j > 0
        invariant
            j <= q.len(),
            key@ == k@,
            last_value(q.deep_view(), k@) == last_value(q.deep_view().subrange(0, j as int), k@),
        decreases j,
    {
        proof {
            assert(q.deep_view().subrange(0, j as int).drop_last() =~= q.deep_view().subrange(
                0,
                j - 1,
            ));
        }
        let kk = chars_of(q[j - 1].0.as_str());
        if crate::text::eq_vec(&kk, &key) {
            return Some(chars_of(q[j - 1].1.as_str()));
        }
        j = j - 1;
    }
    None
}

fn supported_exec(k: &Vec<char>) -> (r: bool)
    ensures
        r == supported_param(k@),
{
    crate::text::eq_vec(k, &chars_of("geoId")) || crate::text::eq_vec(k, &chars_of("f_T"))
        || crate::text::eq_vec(k, &chars_of("f_I")) || crate::text::eq_vec(k, &chars_of("f_WT"))
        || crate::text::eq_vec(k, &chars_of("f_TPR")) || crate::text::eq_vec(
        k,
        &chars_of("sortBy"),
    )
}

fn list_param_exec(q: &Vec<(String, String)>, k: &str, default: Vec<String>) -> (r: Vec<String>)
    ensures
        strings_view(r@) == list_param(q.deep_view(), k@, strings_view(default@)),
{
    match last_value_exec(q, k) {
        Some(v) => split_exec(&v, ','),
        None => default,
    }
}

fn one_param_exec(q: &Vec<(String, String)>, k: &str, default: &str) -> (r: String)
    ensures
        r@ == one_param(q.deep_view(), k@, default@),
{
    match last_value_exec(q, k) {
        Some(v) => string_of(&v),
        None => string_of(&chars_of(default)),
    }
}

impl LinkedInParams {
    /// Reads the filters of a LinkedIn search URL. Refused: a URL that does
    /// not parse, one with a query parameter other than geoId, f_T, f_I,
    /// f_WT, f_TPR and sortBy, and a time range not starting with 'r'.
    pub fn parse_url(url: &str) -> (r: Result<LinkedInParams, LinkedInUrlError>)
        ensures
            match url_parts_result(url@) {
                None => r matches Err(LinkedInUrlError::InvalidUrl),
                Some(p) => if has_unsupported(p.3) {
                    r matches Err(LinkedInUrlError::UnsupportedParam { key })
                        && unsupported_key_of(p.3, key@)
                } else if !starts_with(params_of_query(p.3).time_posted_range, seq!['r']) {
                    r matches Err(LinkedInUrlError::BadTimeRange)
                } else {
                    r matches Ok(params) && params@ == params_of_query(p.3)
                },
            },
    {
        let parts = match parse_url(url) {
            Ok(p) => p,
            Err(_) => return Err(LinkedInUrlError::InvalidUrl),
        };
        let ghost pv = url_parts_view(parts);
        assert(url_parts_result(url@) == Some(pv));
        let q = parts.query;
        let ghost qv = q.deep_view();
        assert(pv.3 == qv);
        let mut i: usize = 0;
        while i < q.len()
            invariant
                i <= q.len(),
                qv == q.deep_view(),
                url_parts_result(url@) == Some(pv),
                pv.3 == qv,
                forall|j: int| 0 <= j < i ==> supported_param(#[trigger] qv[j].0),
            decreases q.len() - i,
        {
            let k = chars_of(q[i].0.as_str());
            assert(qv[i as int].0 == k@);
            if !supported_exec(&k) {
                let key = string_of(&k);
                assert(0 <= i < qv.len() && qv[i as int].0 == key@ && !supported_param(key@));
                assert(has_unsupported(qv));
                assert(unsupported_key_of(qv, key@));
                return Err(LinkedInUrlError::UnsupportedParam { key });
            }
            i = i + 1;
        }
        assert(!has_unsupported(qv));
        let geo_id = one_param_exec(&q, "geoId", DEFAULT_GEO_ID);
        let title_ids = list_param_exec(&q, "f_T", strings_from(&vec!["9", "25201", "30128"]));
        let industry_ids = list_param_exec(&q, "f_I", strings_from(&vec![DEFAULT_INDUSTRY_ID]));
        let workplace_types = list_param_exec(
            &q,
            "f_WT",
            strings_from(&vec![DEFAULT_WORKPLACE_TYPE]),
        );
        let time_posted_range = one_param_exec(&q, "f_TPR", DEFAULT_TIME_POSTED_RANGE);
        let t = chars_of(time_posted_range.as_str());
        let ok = t.len() > 0 && t[0] == 'r';
        proof {
            if ok {
                assert(t@.subrange(0, 1) =~= seq!['r']);
            } else if t.len() > 0 {
                assert(t@.subrange(0, 1)[0] == t@[0]);
            }
            assert(ok == starts_with(params_of_query(qv).time_posted_range, seq!['r']));
        }
        if !ok {
            return Err(LinkedInUrlError::BadTimeRange);
        }
        let r = LinkedInParams {
            geo_id,
            title_ids,
            industry_ids,
            workplace_types,
            time_posted_range,
        };
        proof {
            assert(seq!["9"@, "25201"@, "30128"@] =~= default_title_ids());
            assert(r@.title_ids =~= params_of_query(qv).title_ids);
            assert(r@.industry_ids =~= params_of_query(qv).industry_ids);
            assert(r@.workplace_types =~= params_of_query(qv).workplace_types);
        }
        Ok(r)
    }

    /// The Voyager search query for the filters.
    pub open spec fn voyager_query_spec(p: ParamsView) -> Seq<char> {
        "(origin:JOB_SEARCH_PAGE_JOB_FILTER,locationUnion:(geoId:"@ + p.geo_id
            + "),selectedFilters:(sortBy:List("@ + DEFAULT_SORT_BY@ + "),industry:List("@ + join(
            p.industry_ids,
            ","@,
        ) + "),title:List("@ + join(p.title_ids, ","@) + "),timePostedRange:List("@
            + p.time_posted_range + "),workplaceType:List("@ + join(p.workplace_types, ","@)
            + ")))"@
    }

    pub fn build_voyager_query(&self) -> (r: String)
        ensures
            r@ == Self::voyager_query_spec(self@),
    {
        let mut out: Vec<char> = Vec::new();
        push_str(&mut out, "(origin:JOB_SEARCH_PAGE_JOB_FILTER,locationUnion:(geoId:");
        push_str(&mut out, self.geo_id.as_str());
        push_str(&mut out, "),selectedFilters:(sortBy:List(");
        push_str(&mut out, DEFAULT_SORT_BY);
        push_str(&mut out, "),industry:List(");
        push_all(&mut out, &join_strings(&self.industry_ids, ","));
        push_str(&mut out, "),title:List(");
        push_all(&mut out, &join_strings(&self.title_ids, ","));
        push_str(&mut out, "),timePostedRange:List(");
        push_str(&mut out, self.time_posted_range.as_str());
        push_str(&mut out, "),workplaceType:List(");
        push_all(&mut out, &join_strings(&self.workplace_types, ","));
        push_str(&mut out, ")))");
        assert(out@ =~= Self::voyager_query_spec(self@));
        string_of(&out)
    }

    /// The Voyager search URL for the page of cards from `start` on.
    pub open spec fn voyager_url_spec(p: ParamsView, start: nat) -> Seq<char> {
        VOYAGER_BASE_URL@ + "?decorationId="@ + VOYAGER_DECORATION_ID@ + "&count="@ + dec(
            PAGE_SIZE as nat,
        ) + "&q=jobSearch&query="@ + Self::voyager_query_spec(p) + "&start="@ + dec(start)
    }

    pub fn build_voyager_search_url(&self, start: usize) -> (r: String)
        ensures
            r@ == Self::voyager_url_spec(self@, start as nat),
    {
        let query = self.build_voyager_query();
        let mut out: Vec<char> = Vec::new();
        push_str(&mut out, VOYAGER_BASE_URL);
        push_str(&mut out, "?decorationId=");
        push_str(&mut out, VOYAGER_DECORATION_ID);
        push_str(&mut out, "&count=");
        push_decimal(&mut out, PAGE_SIZE as u64);
        push_str(&mut out, "&q=jobSearch&query=");
        push_str(&mut out, query.as_str());
        push_str(&mut out, "&start=");
        push_decimal(&mut out, start as u64);
        assert(out@ =~= Self::voyager_url_spec(self@, start as nat));
        string_of(&out)
    }
}

/// The LinkedIn scraper and its search filters.
#[derive(Debug, Clone)]
pub struct LinkedInScraper {
    pub params: LinkedInParams,
}

impl LinkedInScraper {
    /// A scraper with the filters of `url`, or the default filters when the
    /// URL is refused.
    pub fn new(url: &str) -> (r: LinkedInScraper)
        ensures
            match url_parts_result(url@) {
                Some(p) => if !has_unsupported(p.3) && starts_with(
                    params_of_query(p.3).time_posted_range,
                    seq!['r'],
                ) {
                    r.params@ == params_of_query(p.3)
                } else {
                    r.params@ == default_params()
                },
                None => r.params@ == default_params(),
            },
    {
        let params = match LinkedInParams::parse_url(url) {
            Ok(p) => p,
            Err(_) => LinkedInParams::default(),
        };
        LinkedInScraper { params }
    }
}

/// A job card of a Voyager search page.
#[derive(Debug, Clone)]
pub struct LinkedInJobCard {
    pub id: String,
    pub title: String,
    /// When the job was listed, in milliseconds since the Unix epoch.
    pub listed_at: Option<i64>,
}

/// One page of Voyager search results and the number of all results.
#[derive(Debug, Clone)]
pub struct VoyagerCardsResult {
    pub cards: Vec<LinkedInJobCard>,
    pub total: i64,
}

/// Where the next page of cards starts, after `fetched` cards and a page of
/// `count` more out of `total`: nothing when the page was empty or all
/// cards are in.
pub open spec fn next_start_spec(fetched: nat, count: nat, total: nat) -> Option<nat> {
    if count == 0 || fetched + count >= total {
        None
    } else {
        Some(fetched + count)
    }
}

pub fn next_start(fetched: usize, count: usize, total: usize) -> (r: Option<usize>)
    ensures
        match r {
            Some(n) => next_start_spec(fetched as nat, count as nat, total as nat) == Some(
                n as nat,
            ),
            None => next_start_spec(fetched as nat, count as nat, total as nat) is None,
        },
{
    if count == 0 || fetched as u128 + count as u128 >= total as u128 {
        None
    } else {
        Some(fetched + count)
    }
}

/// The URL of a job's LinkedIn page.
pub fn job_view_url(job_id: u64) -> (r: String)
    ensures
        r@ == JOB_VIEW_BASE_URL@ + dec(job_id as nat) + "/"@,
{
    let mut out: Vec<char> = Vec::new();
    push_str(&mut out, JOB_VIEW_BASE_URL);
    push_decimal(&mut out, job_id);
    push_str(&mut out, "/");
    string_of(&out)
}

/// Search URLs are accepted on linkedin.com and its subdomains.
pub open spec fn linkedin_host_ok(url: Seq<char>) -> bool {
    match url_parts_result(url) {
        None => false,
        Some(p) => crate::text::ends_with(
            match p.0 {
                Some(h) => h,
                None => Seq::empty(),
            },
            "linkedin.com"@,
        ),
    }
}

/// Whether a search URL parses and lies on linkedin.com.
pub fn check_linkedin_host(url: &str) -> (r: bool)
    ensures
        r == linkedin_host_ok(url@),
{
    match parse_url(url) {
        Err(_) => false,
        Ok(p) => {
            let h = match &p.host {
                Some(h) => chars_of(h.as_str()),
                None => Vec::new(),
            };
            crate::text::ends_with_exec(&h, &chars_of("linkedin.com"))
        },
    }
}

/// Splitting a list value at commas and joining the parts with commas
/// gives the value back: a filter list read from a search URL reaches the
/// Voyager query unchanged.
pub proof fn lemma_split_join(s: Seq<char>, c: char)
    ensures
        join(split_at_char(s, c), seq![c]) == s,
    decreases s.len(),
{
    let i = first_index_of(s, c);
    lemma_first_index_of(s, c);
    if i < 0 {
        assert(split_at_char(s, c) == seq![s]);
    } else {
        let head = s.subrange(0, i);
        let rest = s.subrange(i + 1, s.len() as int);
        lemma_split_join(rest, c);
        let parts = split_at_char(rest, c);
        assert(split_at_char(s, c) == seq![head] + parts);
        assert(parts.len() > 0) by {
            lemma_first_index_of(rest, c);
        }
        crate::text::lemma_join_cons(head, parts, seq![c]);
        assert(head + seq![c] + rest =~= s);
    }
}

/// A search URL without query parameters is accepted and gives the
/// default filters.
pub proof fn lemma_plain_url_defaults(q: Seq<(Seq<char>, Seq<char>)>)
    requires
        q.len() == 0,
    ensures
        !has_unsupported(q),
        starts_with(params_of_query(q).time_posted_range, seq!['r']),
        params_of_query(q) == default_params(),
{
    reveal_strlit("r2592000");
    assert(DEFAULT_TIME_POSTED_RANGE@ == "r2592000"@);
    assert(DEFAULT_TIME_POSTED_RANGE@.subrange(0, 1) =~= seq!['r']);
}

/// Paging moves forward and stays below the total: a next start lies after
/// the cards fetched so far and before the number of all cards.
pub proof fn lemma_next_start_progress(fetched: nat, count: nat, total: nat)
    ensures
        next_start_spec(fetched, count, total) matches Some(n) ==> fetched < n < total,
{
}

/// A job detail as the page script reports it; `posted_at` in
/// milliseconds since the Unix epoch.
#[derive(Debug, Clone)]
pub struct LinkedInJobDetailJs {
    pub company: String,
    pub location: String,
    pub employment_type: String,
    pub job_function: String,
    pub industries: String,
    pub description: String,
    pub salary: String,
    pub posted_at: i64,
}

/// A time in milliseconds as whole seconds, or `now` where `chrono` cannot
/// represent it.
pub open spec fn millis_or(millis: i64, now: int) -> int {
    match millis_to_secs_result(millis as int) {
        Some(s) => s,
        None => now,
    }
}

fn secs_of_millis_or(millis: i64, now: i64) -> (r: i64)
    ensures
        r as int == millis_or(millis, now as int),
{
    match millis_to_secs(millis) {
        Some(s) => s,
        None => now,
    }
}

/// The detail a script report gives, seen from `now`.
pub fn linkedin_detail_at(raw: LinkedInJobDetailJs, now: i64) -> (d: LinkedInJobDetail)
    ensures
        d.company == raw.company,
        d.location == raw.location,
        d.employment_type == raw.employment_type,
        d.job_function == raw.job_function,
        d.industries == raw.industries,
        d.description == raw.description,
        d.salary == raw.salary,
        d.posted_at as int == millis_or(raw.posted_at, now as int),
{
    let posted_at = secs_of_millis_or(raw.posted_at, now);
    LinkedInJobDetail {
        company: raw.company,
        location: raw.location,
        employment_type: raw.employment_type,
        job_function: raw.job_function,
        industries: raw.industries,
        description: raw.description,
        salary: raw.salary,
        posted_at,
    }
}

/// The detail a script report gives, stamped with the time of the call.
pub fn linkedin_detail(raw: LinkedInJobDetailJs) -> (d: LinkedInJobDetail)
    ensures
        d.company == raw.company,
        d.location == raw.location,
        d.employment_type == raw.employment_type,
        d.job_function == raw.job_function,
        d.industries == raw.industries,
        d.description == raw.description,
        d.salary == raw.salary,
        match millis_to_secs_result(raw.posted_at as int) {
            Some(s) => d.posted_at as int == s,
            None => true,
        },
{
    linkedin_detail_at(raw, now_unix())
}

/// The numeric job id of a card, as `str::parse::<u64>` reads it.
pub fn card_job_id(card: &LinkedInJobCard) -> (r: Option<u64>)
    ensures
        r == parse_u64_spec(card.id@),
{
    parse_u64_str(card.id.as_str())
}

/// The budget of a LinkedIn job: its salary read as a yearly budget.
pub open spec fn linkedin_budget(salary: Seq<char>) -> Option<Seq<char>> {
    match budget_parse_spec(salary, Some("yr"@)) {
        Some(b) => Some(budget_text(b)),
        None => None,
    }
}

/// The text when there is some.
pub open spec fn text_or_none(s: Seq<char>) -> Option<Seq<char>> {
    if s.len() > 0 {
        Some(s)
    } else {
        None
    }
}

/// The job stored for a card with job id `job_id` and its detail, seen from
/// `now`.
pub open spec fn linkedin_job_matches(
    job: Job,
    card: LinkedInJobCard,
    job_id: u64,
    d: LinkedInJobDetail,
    now: int,
) -> bool {
    &&& job.id == 0
    &&& job.platform == Platform::LinkedIn
    &&& job.external_id@ == card.id@
    &&& job.title@ == card.title@
    &&& opt_string_view(job.description) == text_or_none(d.description@)
    &&& job.url@ == JOB_VIEW_BASE_URL@ + dec(job_id as nat) + "/"@
    &&& opt_string_view(job.budget) == linkedin_budget(d.salary@)
    &&& job.tags@.len() == 0
    &&& job.raw == Data::LinkedIn { detail: d }
    &&& opt_string_view(job.company) == text_or_none(d.company@)
    &&& job.created_at == (match card.listed_at {
        Some(ms) => millis_or(ms, now),
        None => now,
    })
    &&& job.updated_at == now
    &&& job.note is None
    &&& job.liked is None
    &&& job.applied_at is None
    &&& job.remote
}

fn copy_text_or_none(s: &String) -> (r: Option<String>)
    ensures
        opt_string_view(r) == text_or_none(s@),
{
    if s.as_str().is_empty() {
        None
    } else {
        Some(copy_string(s))
    }
}

/// The job stored for a card and its detail, seen from `now`: always
/// remote, its salary read as a yearly budget.
pub fn linkedin_job_at(card: &LinkedInJobCard, job_id: u64, d: LinkedInJobDetail, now: i64) -> (job: Job)
    ensures
        linkedin_job_matches(job, *card, job_id, d, now as int),
{
    let company = copy_text_or_none(&d.company);
    let description = copy_text_or_none(&d.description);
    let budget = match Budget::parse(d.salary.as_str(), Some("yr")) {
        Some(b) => Some(b.to_string()),
        None => None,
    };
    proof {
        reveal_strlit("yr");
    }
    let created_at = match card.listed_at {
        Some(ms) => secs_of_millis_or(ms, now),
        None => now,
    };
    Job {
        id: 0,
        platform: Platform::LinkedIn,
        external_id: copy_string(&card.id),
        title: copy_string(&card.title),
        description,
        url: job_view_url(job_id),
        budget,
        tags: Vec::new(),
        raw: Data::LinkedIn { detail: d },
        company,
        created_at,
        updated_at: now,
        note: None,
        liked: None,
        applied_at: None,
        remote: true,
    }
}

/// The job stored for a card and its detail, stamped with the time of the
/// call.
pub fn linkedin_job(card: &LinkedInJobCard, job_id: u64, d: LinkedInJobDetail) -> (job: Job)
    ensures
        linkedin_job_matches(job, *card, job_id, d, job.updated_at as int),
{
    linkedin_job_at(card, job_id, d, now_unix())
}

} // verus!
