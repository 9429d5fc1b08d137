//! The external content source, as the library sees it: the outcome of
//! one outbound fetch, the pipeline's error taxonomy, and the fixed
//! candidate set that stands in for the source's (out of scope) payload
//! decoding.

use vstd::prelude::*;

verus! {

use crate::text::concat;
use crate::text::spec_decimal;
use crate::text::u64_to_decimal;
use crate::types::FetchStatus;
use crate::types::FetchStatusView;
use crate::types::Video;
use crate::types::VideoView;
use crate::types::views_of;

/// How one outbound fetch ended, as the host hands it in: a completed
/// response with its HTTP status, or a transport-level failure with its
/// detail text.
#[derive(Debug)]
pub enum FetchResponse {
    Response { status: u64 },
    Transport(String),
}

/// Spec-level image of `FetchResponse`.
pub ghost enum FetchResponseView {
    Response { status: u64 },
    Transport(Seq<char>),
}

impl View for FetchResponse {
    type V = FetchResponseView;

    open spec fn view(&self) -> FetchResponseView {
        match self {
            FetchResponse::Response { status } => FetchResponseView::Response { status: *status },
            FetchResponse::Transport(d) => FetchResponseView::Transport(d@),
        }
    }
}

/// Why a fetch cycle failed: the call completed with a non-success
/// status, or it could not complete at all.
#[derive(Debug, PartialEq, Eq)]
pub enum FetchError {
    Http(u64),
    Transport(String),
}

/// Spec-level image of `FetchError`.
pub ghost enum FetchErrorView {
    Http(u64),
    Transport(Seq<char>),
}

impl View for FetchError {
    type V = FetchErrorView;

    open spec fn view(&self) -> FetchErrorView {
        match self {
            FetchError::Http(s) => FetchErrorView::Http(*s),
            FetchError::Transport(d) => FetchErrorView::Transport(d@),
        }
    }
}

/// The fetch cycle's verdict on a fetch outcome: no error on a 200
/// response, the tagged error otherwise.
pub open spec fn spec_cycle_error(resp: FetchResponseView) -> Option<FetchErrorView> {
    match resp {
        FetchResponseView::Response { status } => if status == 200 {
            None
        } else {
            Some(FetchErrorView::Http(status))
        },
        FetchResponseView::Transport(d) => Some(FetchErrorView::Transport(d)),
    }
}

/// The message surfaced to the caller when a poll fails.
pub open spec fn poll_failed_text(e: FetchErrorView) -> Seq<char> {
    match e {
        FetchErrorView::Http(status) => "Poll failed: HTTP error: "@ + spec_decimal(status as int),
        FetchErrorView::Transport(d) => "Poll failed: Request failed: "@ + d,
    }
}

pub fn poll_failed_message(e: &FetchError) -> (r: String)
    ensures
        r@ == poll_failed_text(e@),
{
    match e {
        FetchError::Http(status) => {
            let digits = u64_to_decimal(*status);
            concat("Poll failed: HTTP error: ", digits.as_str())
        },
        FetchError::Transport(d) => concat("Poll failed: Request failed: ", d.as_str()),
    }
}

/// The fixed candidate set standing in for the source's payload, dated
/// relative to the fetch time `now`.
pub open spec fn mock_views(now: i64) -> Seq<VideoView> {
    seq![
        VideoView {
            id: "1"@,
            title: "Decentralized Future on ICP"@,
            description: "Exploring blockchain technology and the Internet Computer"@,
            channel: "TechLain"@,
            source_url: "https://odysee.com/@lainlives:c/decentralized-tech:e"@,
            thumbnail_url: None,
            published_at: (now - 86400000) as i64,
            fetched_at: now,
            content_hash: None,
            fetch_status: FetchStatusView::Okay,
            license: Some("Creative Commons"@),
        },
        VideoView {
            id: "2"@,
            title: "Cyberpunk Aesthetics & Digital Art"@,
            description: "Visual culture in the digital age"@,
            channel: "VisualLain"@,
            source_url: "https://odysee.com/@lainlives:c/cyberpunk-culture:3"@,
            thumbnail_url: None,
            published_at: (now - 172800000) as i64,
            fetched_at: now,
            content_hash: None,
            fetch_status: FetchStatusView::Okay,
            license: Some("Creative Commons"@),
        },
        VideoView {
            id: "3"@,
            title: "Web3 Development Tutorial"@,
            description: "Building decentralized apps on Internet Computer"@,
            channel: "DevLain"@,
            source_url: "https://odysee.com/@lainlives:c/icp-development:7"@,
            thumbnail_url: None,
            published_at: (now - 259200000) as i64,
            fetched_at: now,
            content_hash: None,
            fetch_status: FetchStatusView::Okay,
            license: Some("Creative Commons"@),
        },
    ]
}

/// The candidate records the pipeline writes on a successful fetch at
/// time `now`.
pub fn create_mock_videos(now: i64) -> (r: Vec<Video>)
    requires
        0 <= now,
    ensures
        views_of(r@) == mock_views(now),
{
    let first = Video {
        id: "1".to_owned(),
        title: "Decentralized Future on ICP".to_owned(),
        description: "Exploring blockchain technology and the Internet Computer".to_owned(),
        channel: "TechLain".to_owned(),
        source_url: "https://odysee.com/@lainlives:c/decentralized-tech:e".to_owned(),
        thumbnail_url: None,
        published_at: now - 86400000,
        fetched_at: now,
        content_hash: None,
        fetch_status: FetchStatus::Okay,
        license: Some("Creative Commons".to_owned()),
    };
    let second = Video {
        id: "2".to_owned(),
        title: "Cyberpunk Aesthetics & Digital Art".to_owned(),
        description: "Visual culture in the digital age".to_owned(),
        channel: "VisualLain".to_owned(),
        source_url: "https://odysee.com/@lainlives:c/cyberpunk-culture:3".to_owned(),
        thumbnail_url: None,
        published_at: now - 172800000,
        fetched_at: now,
        content_hash: None,
        fetch_status: FetchStatus::Okay,
        license: Some("Creative Commons".to_owned()),
    };
    let third = Video {
        id: "3".to_owned(),
        title: "Web3 Development Tutorial".to_owned(),
        description: "Building decentralized apps on Internet Computer".to_owned(),
        channel: "DevLain".to_owned(),
        source_url: "https://odysee.com/@lainlives:c/icp-development:7".to_owned(),
        thumbnail_url: None,
        published_at: now - 259200000,
        fetched_at: now,
        content_hash: None,
        fetch_status: FetchStatus::Okay,
        license: Some("Creative Commons".to_owned()),
    };
    let ghost fv = first@;
    let ghost sv = second@;
    let ghost tv = third@;
    let mut r: Vec<Video> = Vec::new();
    r.push(first);
    r.push(second);
    r.push(third);
    proof {
        assert(fv == mock_views(now)[0]);
        assert(sv == mock_views(now)[1]);
        assert(tv == mock_views(now)[2]);
        assert(views_of(r@) =~= mock_views(now));
    }
    r
}

} // verus!
