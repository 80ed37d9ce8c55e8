//! Application settings, as read from `jobsearch.toml`, and the sample
//! settings written by `jobsearch init`.

use crate::region::Region;
use crate::text::{chars_of, is_white_space, is_white_space_exec, slice_vec, string_of, strings_view, trim_start};
use vstd::prelude::*;

verus! {

/// `path` with a leading "~" replaced by the home directory
/// (`shellexpand::tilde`). The home directory comes from the environment,
/// and which separators may follow the '~' depends on the platform the
/// program is built for ('/' everywhere, '\\' on Windows), so the contract
/// states what holds of every outcome: a path that does not start with '~'
/// is returned as it is; one that does is either returned as it is or has
/// the '~' replaced by some text.
#[verifier::external_body]
pub fn expand_tilde(path: &str) -> (r: String)
    ensures
        !(path@.len() > 0 && path@[0] == '~') ==> r@ == path@,
        path@.len() > 0 && path@[0] == '~' ==> r@ == path@ || exists|home: Seq<char>|
            r@ == home + path@.drop_first(),
{
    shellexpand::tilde(path).into_owned()
}

/// Browser placeholder of the sample settings.
pub const SAMPLE_BROWSER_BIN: &'static str =
    "/Applications/Brave Browser.app/Contents/MacOS/Brave Browser";

/// LLM command line program of the sample settings.
pub const SAMPLE_LLM_BIN: &'static str = "pi";

/// LLM command line arguments of the sample settings.
pub const SAMPLE_LLM_ARGS: &'static str =
    "--print --no-session --no-tools --no-extensions --mode text --thinking off --model deepseek/deepseek-flash";

/// SystemOne base URL used when the settings name none.
pub const DEFAULT_TYPESAFE_BASE_URL: &'static str = "https://api.typesafe.ai";

/// SystemOne model used when the settings name none.
pub const DEFAULT_TYPESAFE_MODEL: &'static str = "jev-latest";

#[derive(Debug, Clone)]
pub struct Settings {
    pub personal_info: PersonalInfo,
    pub pause_ms: u64,
    pub providers: Providers,
    pub browser: BrowserConfig,
    pub llm: LlmConfig,
    pub systemone: SystemOneConfig,
}

#[derive(Debug, Clone)]
pub struct LlmConfig {
    /// LLM command line program.
    pub bin: String,
    /// Its arguments, separated by white space.
    pub args: String,
}

#[derive(Debug, Clone)]
pub struct BrowserConfig {
    /// A Chromium-based browser, started with remote debugging on port 9222.
    pub bin: String,
}

#[derive(Debug, Clone)]
pub struct Providers {
    pub upwork: ProviderConfig,
    pub nofluffjobs: ProviderConfig,
    pub efinancialcareers: ProviderConfig,
    pub linkedin: ProviderConfig,
    pub workatastartup: ProviderConfig,
    pub wellfound: ProviderConfig,
}

#[derive(Debug, Clone)]
pub struct ProviderConfig {
    pub urls: Vec<String>,
}

impl Default for ProviderConfig {
    fn default() -> (r: ProviderConfig)
        ensures
            r.urls@.len() == 0,
    {
        ProviderConfig { urls: Vec::new() }
    }
}

impl Default for Providers {
    fn default() -> (r: Providers)
        ensures
            r.upwork.urls@.len() == 0,
            r.nofluffjobs.urls@.len() == 0,
            r.efinancialcareers.urls@.len() == 0,
            r.linkedin.urls@.len() == 0,
            r.workatastartup.urls@.len() == 0,
            r.wellfound.urls@.len() == 0,
    {
        Providers {
            upwork: ProviderConfig::default(),
            nofluffjobs: ProviderConfig::default(),
            efinancialcareers: ProviderConfig::default(),
            linkedin: ProviderConfig::default(),
            workatastartup: ProviderConfig::default(),
            wellfound: ProviderConfig::default(),
        }
    }
}

#[derive(Debug, Clone)]
pub struct PersonalInfo {
    /// The user's region.
    pub location: Region,
    /// The CV file: absolute, '~'-prefixed, or relative to the working
    /// directory.
    pub cv: String,
}

#[derive(Debug, Clone)]
pub struct SystemOneConfig {
    pub typesafe_base_url: String,
    pub typesafe_default_model: String,
}

/// The SystemOne base URL used when the settings name none.
pub fn default_typesafe_base_url() -> (r: String)
    ensures
        r@ == DEFAULT_TYPESAFE_BASE_URL@,
{
    string_of(&chars_of(DEFAULT_TYPESAFE_BASE_URL))
}

/// The SystemOne model used when the settings name none.
pub fn default_typesafe_default_model() -> (r: String)
    ensures
        r@ == DEFAULT_TYPESAFE_MODEL@,
{
    string_of(&chars_of(DEFAULT_TYPESAFE_MODEL))
}

impl Default for SystemOneConfig {
    fn default() -> (r: SystemOneConfig)
        ensures
            r.typesafe_base_url@ == DEFAULT_TYPESAFE_BASE_URL@,
            r.typesafe_default_model@ == DEFAULT_TYPESAFE_MODEL@,
    {
        SystemOneConfig {
            typesafe_base_url: default_typesafe_base_url(),
            typesafe_default_model: default_typesafe_default_model(),
        }
    }
}

fn one_url(url: &str) -> (r: ProviderConfig)
    ensures
        strings_view(r.urls@) == seq![url@],
{
    let mut urls: Vec<String> = Vec::new();
    urls.push(string_of(&chars_of(url)));
    assert(strings_view(urls@) =~= seq![url@]);
    ProviderConfig { urls }
}

pub const SAMPLE_UPWORK_URL: &'static str =
    "https://www.upwork.com/nx/search/jobs/?q=trading&sort=recency&per_page=50&t=0&hourly_rate=60-";

pub const SAMPLE_NOFLUFFJOBS_URL: &'static str =
    "https://nofluffjobs.com/remote?criteria=employment%3Db2b%20salary%3Eeur8000m%20jobLanguage%3Den&sort=newest";

pub const SAMPLE_EFINANCIALCAREERS_URL: &'static str =
    "https://www.efinancialcareers.com/jobs/remote/python?pageSize=50&filters.postedDate=SEVEN&language=en";

pub const SAMPLE_LINKEDIN_URL: &'static str =
    "https://www.linkedin.com/jobs/search/?f_I=4&f_T=9%2C25201%2C39&f_TPR=r200000&f_WT=2&geoId=92000000";

pub const SAMPLE_WORKATASTARTUP_URL: &'static str =
    "https://www.workatastartup.com/companies?role=eng&remote=only&usVisaNotRequired=true&sortBy=created_desc";

pub const SAMPLE_WELLFOUND_URL: &'static str =
    "https://wellfound.com/role/l/software-engineer/europe";

impl Settings {
    /// The settings `jobsearch init` writes: Europe, "./cv.md", a pause of
    /// two seconds, one search URL per provider and the default SystemOne
    /// settings.
    pub fn sample() -> (r: Settings)
        ensures
            r.personal_info.location == Region::Europe,
            r.personal_info.cv@ == "./cv.md"@,
            r.pause_ms == 2000,
            r.browser.bin@ == SAMPLE_BROWSER_BIN@,
            r.llm.bin@ == SAMPLE_LLM_BIN@,
            r.llm.args@ == SAMPLE_LLM_ARGS@,
            strings_view(r.providers.upwork.urls@) == seq![SAMPLE_UPWORK_URL@],
            strings_view(r.providers.nofluffjobs.urls@) == seq![SAMPLE_NOFLUFFJOBS_URL@],
            strings_view(r.providers.efinancialcareers.urls@) == seq![
                SAMPLE_EFINANCIALCAREERS_URL@,
            ],
            strings_view(r.providers.linkedin.urls@) == seq![SAMPLE_LINKEDIN_URL@],
            strings_view(r.providers.workatastartup.urls@) == seq![SAMPLE_WORKATASTARTUP_URL@],
            strings_view(r.providers.wellfound.urls@) == seq![SAMPLE_WELLFOUND_URL@],
            r.systemone.typesafe_base_url@ == DEFAULT_TYPESAFE_BASE_URL@,
            r.systemone.typesafe_default_model@ == DEFAULT_TYPESAFE_MODEL@,
    {
        Settings {
            personal_info: PersonalInfo {
                location: Region::Europe,
                cv: string_of(&chars_of("./cv.md")),
            },
            pause_ms: 2000,
            browser: BrowserConfig { bin: string_of(&chars_of(SAMPLE_BROWSER_BIN)) },
            llm: LlmConfig {
                bin: string_of(&chars_of(SAMPLE_LLM_BIN)),
                args: string_of(&chars_of(SAMPLE_LLM_ARGS)),
            },
            providers: Providers {
                upwork: one_url(SAMPLE_UPWORK_URL),
                nofluffjobs: one_url(SAMPLE_NOFLUFFJOBS_URL),
                efinancialcareers: one_url(SAMPLE_EFINANCIALCAREERS_URL),
                linkedin: one_url(SAMPLE_LINKEDIN_URL),
                workatastartup: one_url(SAMPLE_WORKATASTARTUP_URL),
                wellfound: one_url(SAMPLE_WELLFOUND_URL),
            },
            systemone: SystemOneConfig::default(),
        }
    }
}

/// Index of the first white-space character of `s`, or its length.
pub open spec fn word_end(s: Seq<char>) -> nat
    decreases s.len(),
{
    if s.len() == 0 || is_white_space(s[0]) {
        0
    } else {
        1 + word_end(s.drop_first())
    }
}

pub proof fn lemma_word_end(s: Seq<char>)
    ensures
        word_end(s) <= s.len(),
        s.len() > 0 && !is_white_space(s[0]) ==> word_end(s) > 0,
    decreases s.len(),
{
    if s.len() > 0 && !is_white_space(s[0]) {
        lemma_word_end(s.drop_first());
    }
}

pub proof fn lemma_trim_start_len(s: Seq<char>)
    ensures
        trim_start(s).len() <= s.len(),
        trim_start(s).len() == 0 || !is_white_space(trim_start(s)[0]),
        trim_start(s) == s.subrange(s.len() - trim_start(s).len(), s.len() as int),
    decreases s.len(),
{
    if s.len() > 0 && is_white_space(s[0]) {
        lemma_trim_start_len(s.drop_first());
        assert(s.drop_first().subrange(
            s.drop_first().len() - trim_start(s).len(),
            s.drop_first().len() as int,
        ) =~= s.subrange(s.len() - trim_start(s).len(), s.len() as int));
    } else {
        assert(s.subrange(0, s.len() as int) =~= s);
    }
}

/// The white-space separated words of `s` (`str::split_whitespace`).
pub open spec fn words(s: Seq<char>) -> Seq<Seq<char>>
    decreases s.len(),
{
    let t = trim_start(s);
    if t.len() == 0 {
        Seq::empty()
    } else {
        proof {
            lemma_trim_start_len(s);
            lemma_word_end(t);
        }
        let e = word_end(t);
        seq![t.subrange(0, e as int)] + words(t.subrange(e as int, t.len() as int))
    }
}

proof fn lemma_word_end_at(s: Seq<char>, e: int)
    requires
        0 <= e <= s.len(),
        e < s.len() ==> is_white_space(s[e]),
        forall|j: int| 0 <= j < e ==> !is_white_space(s[j]),
    ensures
        word_end(s) == e,
    decreases s.len(),
{
    if s.len() > 0 && e > 0 {
        assert forall|j: int| 0 <= j < e - 1 implies !is_white_space(s.drop_first()[j]) by {
            assert(s.drop_first()[j] == s[j + 1]);
        }
        if e - 1 < s.drop_first().len() {
            assert(s.drop_first()[e - 1] == s[e]);
        }
        lemma_word_end_at(s.drop_first(), e - 1);
    }
}

/// The words of `v`.
pub fn words_vec(v: &Vec<char>) -> (r: Vec<String>)
    ensures
        strings_view(r@) == words(v@),
{
    let mut out: Vec<String> = Vec::new();
    let mut i: usize = 0;
    assert(v@.subrange(0, v.len() as int) =~= v@);
    while i < v.len()
        invariant
            i <= v.len(),
            strings_view(out@) + words(v@.subrange(i as int, v.len() as int)) == words(v@),
        decreases v.len() - i,
    {
        let ghost rest = v@.subrange(i as int, v.len() as int);
        let mut s = i;
        while s < v.len() && is_white_space_exec(v[s])
            invariant
                i <= s <= v.len(),
                forall|j: int| i <= j < s ==> is_white_space(v@[j]),
            decreases v.len() - s,
        {
            s = s + 1;
        }
        proof {
            lemma_trim_start_skip(rest, (s - i) as int);
        }
        if s >= v.len() {
            proof {
                assert(trim_start(rest).len() == 0);
                assert(words(rest) =~= Seq::<Seq<char>>::empty());
                assert(v@.subrange(v.len() as int, v.len() as int) =~= rest.subrange(
                    rest.len() as int,
                    rest.len() as int,
                ));
            }
            i = s;
            proof {
                assert(words(v@.subrange(i as int, v.len() as int)) =~= Seq::<Seq<char>>::empty());
                assert(strings_view(out@) + Seq::<Seq<char>>::empty() =~= strings_view(out@));
            }
        } else {
            let mut e = s;
            while e < v.len() && !is_white_space_exec(v[e])
                invariant
                    s <= e <= v.len(),
                    forall|j: int| s <= j < e ==> !is_white_space(v@[j]),
                decreases v.len() - e,
            {
                e = e + 1;
            }
            let ghost t = trim_start(rest);
            proof {
                assert(t =~= v@.subrange(s as int, v.len() as int));
                lemma_word_end_at(t, (e - s) as int);
            }
            let w = string_of(&slice_vec(v, s, e));
            let ghost o0 = strings_view(out@);
            out.push(w);
            proof {
                assert(strings_view(out@) =~= o0.push(w@));
                assert(w@ =~= t.subrange(0, (e - s) as int));
                assert(t.subrange((e - s) as int, t.len() as int) =~= v@.subrange(
                    e as int,
                    v.len() as int,
                ));
                assert(o0 + words(rest) =~= o0.push(w@) + words(v@.subrange(e as int, v.len() as int)));
            }
            i = e;
        }
    }
    proof {
        assert(v@.subrange(i as int, v.len() as int) =~= Seq::<char>::empty());
        assert(words(Seq::<char>::empty()) =~= Seq::<Seq<char>>::empty());
        assert(strings_view(out@) + Seq::<Seq<char>>::empty() =~= strings_view(out@));
    }
    out
}

proof fn lemma_trim_start_skip(s: Seq<char>, k: int)
    requires
        0 <= k <= s.len(),
        forall|j: int| 0 <= j < k ==> is_white_space(s[j]),
        k < s.len() ==> !is_white_space(s[k]),
    ensures
        trim_start(s) =~= s.subrange(k, s.len() as int),
    decreases k,
{
    if k > 0 {
        assert forall|j: int| 0 <= j < k - 1 implies is_white_space(s.drop_first()[j]) by {
            assert(s.drop_first()[j] == s[j + 1]);
        }
        if k - 1 < s.drop_first().len() {
            assert(s.drop_first()[k - 1] == s[k]);
        }
        lemma_trim_start_skip(s.drop_first(), k - 1);
        assert(s.drop_first().subrange(k - 1, s.drop_first().len() as int) =~= s.subrange(
            k,
            s.len() as int,
        ));
    } else {
        assert(s.subrange(0, s.len() as int) =~= s);
    }
}

impl LlmConfig {
    /// The arguments of the LLM command line, split at white space.
    pub fn arg_list(&self) -> (r: Vec<String>)
        ensures
            strings_view(r@) == words(self.args@),
    {
        words_vec(&chars_of(self.args.as_str()))
    }
}

} // verus!
