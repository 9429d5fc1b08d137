//! The catalog's data types and their spec-level images.

use vstd::prelude::*;

verus! {

/// Outcome recorded on a video record by whatever produced it.
#[derive(Debug, PartialEq, Eq)]
pub enum FetchStatus {
    Okay,
    NotFound,
    Error(String),
    Pending,
}

/// Spec-level image of `FetchStatus`.
pub ghost enum FetchStatusView {
    Okay,
    NotFound,
    Error(Seq<char>),
    Pending,
}

impl View for FetchStatus {
    type V = FetchStatusView;

    open spec fn view(&self) -> FetchStatusView {
        match self {
            FetchStatus::Okay => FetchStatusView::Okay,
            FetchStatus::NotFound => FetchStatusView::NotFound,
            FetchStatus::Error(m) => FetchStatusView::Error(m@),
            FetchStatus::Pending => FetchStatusView::Pending,
        }
    }
}

impl Clone for FetchStatus {
    fn clone(&self) -> (r: Self)
        ensures
            r@ == self@,
    {
        match self {
            FetchStatus::Okay => FetchStatus::Okay,
            FetchStatus::NotFound => FetchStatus::NotFound,
            FetchStatus::Error(m) => FetchStatus::Error(m.clone()),
            FetchStatus::Pending => FetchStatus::Pending,
        }
    }
}

/// One cataloged piece of content.  `fetched_at` is stamped by the store
/// on every write; a caller-supplied value never survives an upsert.
#[derive(Debug, PartialEq, Eq)]
pub struct Video {
    pub id: String,
    pub title: String,
    pub description: String,
    pub channel: String,
    pub source_url: String,
    pub thumbnail_url: Option<String>,
    pub published_at: i64,
    pub fetched_at: i64,
    pub content_hash: Option<String>,
    pub fetch_status: FetchStatus,
    pub license: Option<String>,
}

/// Spec-level image of `Video`.
pub ghost struct VideoView {
    pub id: Seq<char>,
    pub title: Seq<char>,
    pub description: Seq<char>,
    pub channel: Seq<char>,
    pub source_url: Seq<char>,
    pub thumbnail_url: Option<Seq<char>>,
    pub published_at: i64,
    pub fetched_at: i64,
    pub content_hash: Option<Seq<char>>,
    pub fetch_status: FetchStatusView,
    pub license: Option<Seq<char>>,
}

pub open spec fn view_opt_string(o: Option<String>) -> Option<Seq<char>> {
    match o {
        Some(s) => Some(s@),
        None => None,
    }
}

impl View for Video {
    type V = VideoView;

    open spec fn view(&self) -> VideoView {
        VideoView {
            id: self.id@,
            title: self.title@,
            description: self.description@,
            channel: self.channel@,
            source_url: self.source_url@,
            thumbnail_url: view_opt_string(self.thumbnail_url),
            published_at: self.published_at,
            fetched_at: self.fetched_at,
            content_hash: view_opt_string(self.content_hash),
            fetch_status: self.fetch_status@,
            license: view_opt_string(self.license),
        }
    }
}

fn clone_opt_string(o: &Option<String>) -> (r: Option<String>)
    ensures
        view_opt_string(r) == view_opt_string(*o),
{
    match o {
        Some(s) => Some(s.clone()),
        None => None,
    }
}

impl Clone for Video {
    fn clone(&self) -> (r: Self)
        ensures
            r@ == self@,
    {
        Video {
            id: self.id.clone(),
            title: self.title.clone(),
            description: self.description.clone(),
            channel: self.channel.clone(),
            source_url: self.source_url.clone(),
            thumbnail_url: clone_opt_string(&self.thumbnail_url),
            published_at: self.published_at,
            fetched_at: self.fetched_at,
            content_hash: clone_opt_string(&self.content_hash),
            fetch_status: self.fetch_status.clone(),
            license: clone_opt_string(&self.license),
        }
    }
}

/// The spec-level images of a sequence of records, in order.
pub open spec fn views_of(vs: Seq<Video>) -> Seq<VideoView> {
    vs.map_values(|v: Video| v@)
}

/// The record as the store keeps it after a write at time `now`: the
/// caller's fields, with `fetched_at` replaced by the write time.
pub open spec fn stamped(v: VideoView, now: i64) -> VideoView {
    VideoView { fetched_at: now, ..v }
}

/// The poll configuration: period of the background refresh, and whether
/// it runs at all.
#[derive(Debug, Clone, Copy, PartialEq, Eq, Structural)]
pub struct PollConfig {
    pub interval_seconds: u64,
    pub enabled: bool,
}

/// The two-variant result every mutating operation surfaces: success, or
/// a human-readable error message.
#[derive(Debug, PartialEq, Eq)]
pub enum Result_ {
    Okay,
    Error(String),
}

/// Spec-level image of `Result_`.
pub ghost enum ResultView {
    Okay,
    Error(Seq<char>),
}

impl View for Result_ {
    type V = ResultView;

    open spec fn view(&self) -> ResultView {
        match self {
            Result_::Okay => ResultView::Okay,
            Result_::Error(m) => ResultView::Error(m@),
        }
    }
}

/// Derived figures about the catalog: current store size and the time of
/// the last completed poll.
#[derive(Debug, Clone, Copy, PartialEq, Eq, Structural)]
pub struct Stats {
    pub total_videos: u64,
    pub last_poll: Option<i64>,
}

} // verus!
