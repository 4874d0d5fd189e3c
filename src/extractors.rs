//! The extractor dispatcher: site matchers in priority order, and the step
//! that follows each extractor's outcome.

use vstd::prelude::*;
use crate::model::{ExtractError, VideoInfo};
use crate::twitter::{is_twitter_url, twitter_claims};
use crate::youtube::{is_youtube_url, youtube_claims};

verus! {

/// The extractors, site-specific ones first.
#[derive(Debug, Clone, Copy, PartialEq, Eq, Structural)]
pub enum Site {
    YouTube,
    Twitter,
    Generic,
}

/// The extractor that claims `url`: the first site matcher that matches, in
/// priority order; the generic extractor when none does.
pub open spec fn site_for(url: Seq<char>) -> Site {
    if youtube_claims(url) {
        Site::YouTube
    } else if twitter_claims(url) {
        Site::Twitter
    } else {
        Site::Generic
    }
}

/// The extractor that claims `url`.
pub fn select_site(url: &str) -> (r: Site)
    ensures
        r == site_for(url@),
{
    if is_youtube_url(url) {
        Site::YouTube
    } else if is_twitter_url(url) {
        Site::Twitter
    } else {
        Site::Generic
    }
}

/// What the dispatcher does next.
#[derive(Debug)]
pub enum Dispatch {
    /// Run this extractor on the URL.
    Run(Site),
    /// The extraction is over, with this result.
    Done(Result<VideoInfo, ExtractError>),
}

/// An outcome that ends the dispatch: metadata with at least one format.
pub open spec fn usable(outcome: Result<VideoInfo, ExtractError>) -> bool {
    outcome is Ok && outcome->Ok_0.formats@.len() > 0
}

/// The step after `site` gave `outcome`: a usable outcome is the result; any
/// other outcome of a site-specific extractor falls through to the generic
/// one; the generic extractor's outcome is final.
pub open spec fn dispatch_after(site: Site, outcome: Result<VideoInfo, ExtractError>) -> Dispatch {
    if usable(outcome) {
        Dispatch::Done(outcome)
    } else if site != Site::Generic {
        Dispatch::Run(Site::Generic)
    } else {
        Dispatch::Done(outcome)
    }
}

/// The step after `site` gave `outcome`.
pub fn after_extraction(site: Site, outcome: Result<VideoInfo, ExtractError>) -> (r: Dispatch)
    ensures
        r == dispatch_after(site, outcome),
{
    let done = match &outcome {
        Ok(info) => info.formats.len() > 0,
        Err(_) => false,
    };
    if done {
        Dispatch::Done(outcome)
    } else {
        match site {
            Site::Generic => Dispatch::Done(outcome),
            _ => Dispatch::Run(Site::Generic),
        }
    }
}

/// Once the extractor that a site matcher chose succeeds with at least one
/// format, its result is final: no lower-priority extractor runs.
pub proof fn matched_success_is_final(url: Seq<char>, info: VideoInfo)
    requires
        site_for(url) != Site::Generic,
        info.formats@.len() > 0,
    ensures
        dispatch_after(site_for(url), Ok(info)) == Dispatch::Done(Ok::<VideoInfo, ExtractError>(info)),
        !(dispatch_after(site_for(url), Ok(info)) is Run),
{
}

} // verus!
