//! The fields an LLM extracts from a job post, and whether its answer on
//! the health-check post is the expected one.

use crate::text::{chars_of, contains_exec, contains_seq, debug_quote, debug_quoted, push_str, string_of, to_lowercase_vec, unicode_lowercase};
use vstd::prelude::*;

verus! {

/// What is extracted from a Hacker News "Who is hiring" comment.
#[derive(Debug, Clone)]
pub struct ExtractFields {
    pub is_job_ad: bool,
    pub company: Option<String>,
    pub role: Option<String>,
    pub location: Option<String>,
    pub remote: Option<bool>,
    pub budget: Option<String>,
    pub tags: Vec<String>,
}

/// What is extracted from an r/rust "Who's hiring" comment.
#[derive(Debug, Clone)]
pub struct RustFields {
    pub is_job_ad: bool,
    pub company: Option<String>,
    pub role: Option<String>,
    pub location: Option<String>,
    pub remote: Option<bool>,
    pub budget: Option<String>,
    pub tags: Vec<String>,
}

/// How an answer on the health-check post went wrong.
#[derive(Debug, Clone)]
pub enum HealthcheckError {
    NotJobAd,
    Company { company: String },
    Role { role: String },
    Remote { remote: Option<bool> },
}

pub open spec fn opt_bool_debug(b: Option<bool>) -> Seq<char> {
    match b {
        Some(true) => "Some(true)"@,
        Some(false) => "Some(false)"@,
        None => "None"@,
    }
}

pub open spec fn healthcheck_text(e: HealthcheckError) -> Seq<char> {
    match e {
        HealthcheckError::NotJobAd => "healthcheck text must be classified as a job ad"@,
        HealthcheckError::Company { company } => "healthcheck company extraction failed: "@
            + debug_quoted(company@),
        HealthcheckError::Role { role } => "healthcheck role extraction failed: "@ + debug_quoted(
            role@,
        ),
        HealthcheckError::Remote { remote } => "healthcheck remote extraction failed: "@
            + opt_bool_debug(remote),
    }
}

impl HealthcheckError {
    pub fn message(&self) -> (r: String)
        ensures
            r@ == healthcheck_text(*self),
    {
        let mut out: Vec<char> = Vec::new();
        match self {
            HealthcheckError::NotJobAd => push_str(
                &mut out,
                "healthcheck text must be classified as a job ad",
            ),
            HealthcheckError::Company { company } => {
                push_str(&mut out, "healthcheck company extraction failed: ");
                push_str(&mut out, debug_quote(company.as_str()).as_str());
            },
            HealthcheckError::Role { role } => {
                push_str(&mut out, "healthcheck role extraction failed: ");
                push_str(&mut out, debug_quote(role.as_str()).as_str());
            },
            HealthcheckError::Remote { remote } => {
                push_str(&mut out, "healthcheck remote extraction failed: ");
                match remote {
                    Some(true) => push_str(&mut out, "Some(true)"),
                    Some(false) => push_str(&mut out, "Some(false)"),
                    None => push_str(&mut out, "None"),
                }
            },
        }
        string_of(&out)
    }
}

/// An error over character sequences.
pub enum HealthcheckFailure {
    NotJobAd,
    Company(Seq<char>),
    Role(Seq<char>),
    Remote(Option<bool>),
}

impl View for HealthcheckError {
    type V = HealthcheckFailure;

    open spec fn view(&self) -> HealthcheckFailure {
        match self {
            HealthcheckError::NotJobAd => HealthcheckFailure::NotJobAd,
            HealthcheckError::Company { company } => HealthcheckFailure::Company(company@),
            HealthcheckError::Role { role } => HealthcheckFailure::Role(role@),
            HealthcheckError::Remote { remote } => HealthcheckFailure::Remote(*remote),
        }
    }
}

pub open spec fn or_empty(o: Option<String>) -> Seq<char> {
    match o {
        Some(s) => s@,
        None => Seq::empty(),
    }
}

/// The health-check post is a job ad of a company named like "Acme" for a
/// Rust role, remote for the candidate; the first failed expectation is
/// reported.
pub open spec fn healthcheck_spec(
    is_job_ad: bool,
    company: Option<String>,
    role: Option<String>,
    remote: Option<bool>,
) -> Option<HealthcheckFailure> {
    if !is_job_ad {
        Some(HealthcheckFailure::NotJobAd)
    } else if !contains_seq(unicode_lowercase(or_empty(company)), "acme"@) {
        Some(HealthcheckFailure::Company(or_empty(company)))
    } else if !contains_seq(unicode_lowercase(or_empty(role)), "rust"@) {
        Some(HealthcheckFailure::Role(or_empty(role)))
    } else if remote != Some(true) {
        Some(HealthcheckFailure::Remote(remote))
    } else {
        None
    }
}

fn text_or_empty(o: &Option<String>) -> (r: String)
    ensures
        r@ == or_empty(*o),
{
    match o {
        Some(s) => string_of(&chars_of(s.as_str())),
        None => String::new(),
    }
}

fn check_answer(
    is_job_ad: bool,
    company: &Option<String>,
    role: &Option<String>,
    remote: Option<bool>,
) -> (r: Result<(), HealthcheckError>)
    ensures
        match r {
            Ok(()) => healthcheck_spec(is_job_ad, *company, *role, remote) is None,
            Err(e) => healthcheck_spec(is_job_ad, *company, *role, remote) == Some(e@),
        },
{
    if !is_job_ad {
        return Err(HealthcheckError::NotJobAd);
    }
    let c = text_or_empty(company);
    if !contains_exec(&to_lowercase_vec(&chars_of(c.as_str())), &chars_of("acme")) {
        return Err(HealthcheckError::Company { company: c });
    }
    let r = text_or_empty(role);
    if !contains_exec(&to_lowercase_vec(&chars_of(r.as_str())), &chars_of("rust")) {
        return Err(HealthcheckError::Role { role: r });
    }
    if remote != Some(true) {
        return Err(HealthcheckError::Remote { remote });
    }
    Ok(())
}

impl ExtractFields {
    /// Checks the answer on the health-check post.
    pub fn verify(&self) -> (r: Result<(), HealthcheckError>)
        ensures
            match r {
                Ok(()) => healthcheck_spec(self.is_job_ad, self.company, self.role, self.remote) is None,
                Err(e) => healthcheck_spec(self.is_job_ad, self.company, self.role, self.remote) == Some(e@),
            },
    {
        check_answer(self.is_job_ad, &self.company, &self.role, self.remote)
    }
}

impl RustFields {
    /// Checks the answer on the health-check post.
    pub fn verify(&self) -> (r: Result<(), HealthcheckError>)
        ensures
            match r {
                Ok(()) => healthcheck_spec(self.is_job_ad, self.company, self.role, self.remote) is None,
                Err(e) => healthcheck_spec(self.is_job_ad, self.company, self.role, self.remote) == Some(e@),
            },
    {
        check_answer(self.is_job_ad, &self.company, &self.role, self.remote)
    }
}

} // verus!
