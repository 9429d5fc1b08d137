use lain_tv_backend::source::create_mock_videos;
use lain_tv_backend::text::contains_fragment;
use lain_tv_backend::FetchStatus;

#[test]
fn mock_candidates_content() {
    let now: i64 = 1_000_000_000;
    let vids = create_mock_videos(now);
    assert_eq!(vids.len(), 3);
    assert_eq!(vids[0].id, "1");
    assert_eq!(vids[0].title, "Decentralized Future on ICP");
    assert_eq!(vids[0].channel, "TechLain");
    assert_eq!(vids[0].published_at, now - 86_400_000);
    assert_eq!(vids[1].id, "2");
    assert_eq!(vids[1].channel, "VisualLain");
    assert_eq!(vids[1].published_at, now - 172_800_000);
    assert_eq!(vids[2].id, "3");
    assert_eq!(vids[2].channel, "DevLain");
    assert_eq!(vids[2].published_at, now - 259_200_000);
    for v in &vids {
        assert_eq!(v.fetched_at, now);
        assert_eq!(v.fetch_status, FetchStatus::Okay);
        assert_eq!(v.license, Some("Creative Commons".to_string()));
        assert!(v.thumbnail_url.is_none());
        assert!(v.content_hash.is_none());
    }
}

#[test]
fn channel_lookup_lowers_beyond_ascii() {
    let mut c = lain_tv_backend::Catalog::new("proc".to_string());
    let v = lain_tv_backend::Video {
        id: "u1".to_string(),
        title: "title".to_string(),
        description: "description".to_string(),
        channel: "M\u{dc}LLER".to_string(),
        source_url: "https://odysee.com/u1".to_string(),
        thumbnail_url: None,
        published_at: 10,
        fetched_at: 0,
        content_hash: None,
        fetch_status: FetchStatus::Pending,
        license: None,
    };
    c.add_or_update_video(v, 1);
    let upper = c.get_videos_by_channel(&"M\u{dc}LLER".to_string());
    let lower = c.get_videos_by_channel(&"m\u{fc}ller".to_string());
    assert_eq!(upper.len(), 1);
    assert_eq!(upper[0].id, "u1");
    assert_eq!(upper, lower);
    assert!(c.get_videos_by_channel(&"muller".to_string()).is_empty());
}

#[test]
fn substring_search() {
    assert!(contains_fragment("aaa-rdmx6-jaaaa-cai", "rdmx6-jaaaa"));
    assert!(contains_fragment("rdmx6-jaaaa", "rdmx6-jaaaa"));
    assert!(contains_fragment("anything", ""));
    assert!(!contains_fragment("", "a"));
    assert!(!contains_fragment("rdmx6-jaaa", "rdmx6-jaaaa"));
    assert!(!contains_fragment("ab", "abc"));
}

#[test]
fn poll_failure_status_rendering() {
    let mut c = lain_tv_backend::Catalog::new("proc".to_string());
    let caller = "proc".to_string();
    let r = c.manual_poll(&caller, lain_tv_backend::FetchResponse::Response { status: 0 }, 1);
    assert_eq!(r, lain_tv_backend::Result_::Error("Poll failed: HTTP error: 0".to_string()));
    let r = c.manual_poll(
        &caller,
        lain_tv_backend::FetchResponse::Response { status: 18_446_744_073_709_551_615 },
        1,
    );
    assert_eq!(
        r,
        lain_tv_backend::Result_::Error(
            "Poll failed: HTTP error: 18446744073709551615".to_string()
        )
    );
}
