//! The fixed set of scheduled jobs: each job's lock name and its polling
//! interval. One job covers both solar-event feeds, fetched as a single
//! unit under one lock acquisition.
use vstd::prelude::*;
use crate::config::FetchIntervals;
use crate::errors::ApiError;

verus! {

/// One scheduled polling job.
#[derive(PartialEq, Eq, Structural, Clone, Copy, Debug)]
pub enum JobKind {
    /// The datasets-catalog sync.
    Osdr,
    /// The satellite-position fetch.
    Iss,
    /// The astronomy image of the day.
    Apod,
    /// The near-earth-object feed.
    Neo,
    /// Both solar-event feeds, as one unit.
    Donki,
    /// The next-launch feed.
    Spacex,
}

/// The name a job locks and logs under.
pub open spec fn job_name_spec(j: JobKind) -> Seq<char> {
    match j {
        JobKind::Osdr => "osdr"@,
        JobKind::Iss => "iss"@,
        JobKind::Apod => "apod"@,
        JobKind::Neo => "neo"@,
        JobKind::Donki => "donki"@,
        JobKind::Spacex => "spacex"@,
    }
}

/// The interval a job polls with, from the configured schedule.
pub open spec fn job_interval_spec(j: JobKind, iv: FetchIntervals) -> u64 {
    match j {
        JobKind::Osdr => iv.osdr,
        JobKind::Iss => iv.iss,
        JobKind::Apod => iv.apod,
        JobKind::Neo => iv.neo,
        JobKind::Donki => iv.donki,
        JobKind::Spacex => iv.spacex,
    }
}

impl JobKind {
    /// The name this job locks and logs under.
    pub fn name(&self) -> (r: String)
        ensures
            r@ == job_name_spec(*self),
    {
        match self {
            JobKind::Osdr => String::from_str("osdr"),
            JobKind::Iss => String::from_str("iss"),
            JobKind::Apod => String::from_str("apod"),
            JobKind::Neo => String::from_str("neo"),
            JobKind::Donki => String::from_str("donki"),
            JobKind::Spacex => String::from_str("spacex"),
        }
    }

    /// The interval this job polls with.
    pub fn interval_secs(&self, iv: &FetchIntervals) -> (r: u64)
        ensures
            r == job_interval_spec(*self, *iv),
    {
        match self {
            JobKind::Osdr => iv.osdr,
            JobKind::Iss => iv.iss,
            JobKind::Apod => iv.apod,
            JobKind::Neo => iv.neo,
            JobKind::Donki => iv.donki,
            JobKind::Spacex => iv.spacex,
        }
    }
}

/// The solar-event job's pairing rule: its two fetch-and-persist steps
/// form one unit, and the second runs exactly when the first succeeded.
pub fn donki_second_step(first: &Result<(), ApiError>) -> (r: bool)
    ensures
        r == (first is Ok),
{
    first.is_ok()
}

/// Every scheduled job, each exactly once.
pub fn all_jobs() -> (r: Vec<JobKind>)
    ensures
        r@ =~= seq![
            JobKind::Osdr,
            JobKind::Iss,
            JobKind::Apod,
            JobKind::Neo,
            JobKind::Donki,
            JobKind::Spacex,
        ],
{
    let mut v: Vec<JobKind> = Vec::new();
    v.push(JobKind::Osdr);
    v.push(JobKind::Iss);
    v.push(JobKind::Apod);
    v.push(JobKind::Neo);
    v.push(JobKind::Donki);
    v.push(JobKind::Spacex);
    v
}

} // verus!
