use lain_tv_backend::Catalog;
use lain_tv_backend::FetchError;
use lain_tv_backend::FetchResponse;
use lain_tv_backend::FetchStatus;
use lain_tv_backend::PollConfig;
use lain_tv_backend::Result_;
use lain_tv_backend::Video;
use lain_tv_backend::catalog::is_admin;
use lain_tv_backend::catalog::whoami;

fn record(id: &str, channel: &str) -> Video {
    Video {
        id: id.to_string(),
        title: format!("title of {}", id),
        description: format!("description of {}", id),
        channel: channel.to_string(),
        source_url: format!("https://odysee.com/{}", id),
        thumbnail_url: None,
        published_at: 10,
        fetched_at: 99, // overwritten by the store on every write
        content_hash: None,
        fetch_status: FetchStatus::Pending,
        license: None,
    }
}

fn admin_catalog() -> (Catalog, String) {
    let caller = "proc".to_string();
    (Catalog::new("proc".to_string()), caller)
}

#[test]
fn upsert_idempotence() {
    let (mut c, _) = admin_catalog();
    let v = record("a", "Chan");
    assert!(matches!(c.add_or_update_video(v.clone(), 100), Result_::Okay));
    assert!(matches!(c.add_or_update_video(v.clone(), 200), Result_::Okay));
    let all = c.list_videos();
    assert_eq!(all.len(), 1);
    assert_eq!(all[0].id, "a");
    assert_eq!(all[0].title, v.title);
    assert_eq!(all[0].channel, v.channel);
    assert_eq!(all[0].fetched_at, 200);
    let got = c.get_video(&"a".to_string()).unwrap();
    assert_eq!(got.fetched_at, 200);
}

#[test]
fn upsert_stamps_fetched_at() {
    let (mut c, _) = admin_catalog();
    let mut v = record("a", "Chan");
    v.fetched_at = 12345;
    c.add_or_update_video(v, 7);
    assert_eq!(c.get_video(&"a".to_string()).unwrap().fetched_at, 7);
}

#[test]
fn channel_lookup_case_insensitivity() {
    let (mut c, _) = admin_catalog();
    c.init(1000);
    let upper = c.get_videos_by_channel(&"TechLain".to_string());
    let lower = c.get_videos_by_channel(&"techlain".to_string());
    let shouty = c.get_videos_by_channel(&"TECHLAIN".to_string());
    assert_eq!(upper.len(), 1);
    assert_eq!(upper[0].id, "1");
    assert_eq!(upper, lower);
    assert_eq!(upper, shouty);
}

#[test]
fn channel_lookup_no_match() {
    let (mut c, _) = admin_catalog();
    c.init(1000);
    assert!(c.get_videos_by_channel(&"NoSuchChannel".to_string()).is_empty());
    let empty = Catalog::new("proc".to_string());
    assert!(empty.get_videos_by_channel(&"TechLain".to_string()).is_empty());
}

#[test]
fn remove_semantics() {
    let (mut c, caller) = admin_catalog();
    c.add_or_update_video(record("a", "x"), 1);
    c.add_or_update_video(record("b", "x"), 2);
    assert_eq!(c.get_stats().total_videos, 2);
    let miss = c.remove_video(&caller, &"zzz".to_string());
    assert_eq!(miss, Result_::Error("Video not found".to_string()));
    assert_eq!(c.get_stats().total_videos, 2);
    let hit = c.remove_video(&caller, &"a".to_string());
    assert!(matches!(hit, Result_::Okay));
    assert_eq!(c.get_stats().total_videos, 1);
    assert!(c.get_video(&"a".to_string()).is_none());
    assert!(c.get_video(&"b".to_string()).is_some());
}

#[test]
fn access_gating() {
    let (mut c, _) = admin_catalog();
    c.add_or_update_video(record("a", "x"), 1);
    let stranger = "someone-else".to_string();
    let denied = Result_::Error("Access denied: admin required".to_string());

    assert_eq!(c.remove_video(&stranger, &"a".to_string()), denied);
    assert_eq!(c.get_stats().total_videos, 1);

    let r = c.manual_poll(&stranger, FetchResponse::Response { status: 200 }, 50);
    assert_eq!(r, denied);
    assert_eq!(c.get_stats().total_videos, 1);
    assert_eq!(c.get_stats().last_poll, None);

    let cfg = PollConfig { interval_seconds: 60, enabled: true };
    let (res, act) = c.set_poll_config(&stranger, cfg);
    assert_eq!(res, denied);
    assert_eq!(act.cancel, None);
    assert_eq!(act.arm, None);
    assert_eq!(c.get_poll_config(), PollConfig { interval_seconds: 86400, enabled: false });
}

#[test]
fn admin_identities() {
    let me = "proc".to_string();
    assert!(is_admin(&"proc".to_string(), &me));
    assert!(is_admin(&"aaa-rdmx6-jaaaa-cai".to_string(), &me));
    assert!(is_admin(&"rdmx6-jaaaa".to_string(), &me));
    assert!(!is_admin(&"someone-else".to_string(), &me));
    assert!(!is_admin(&"rdmx6-jaaa".to_string(), &me));
    assert_eq!(whoami(&"caller-7".to_string()), "caller-7".to_string());
}

#[test]
fn fetch_cycle_determinism() {
    let (mut c, _) = admin_catalog();
    let r = c.run_fetch_cycle(FetchResponse::Response { status: 200 }, 500);
    assert_eq!(r, Ok(3));
    let all = c.list_videos();
    assert_eq!(all.len(), 3);
    let mut ids: Vec<String> = all.iter().map(|v| v.id.clone()).collect();
    ids.sort();
    assert_eq!(ids, vec!["1".to_string(), "2".to_string(), "3".to_string()]);
    for v in &all {
        assert_eq!(v.fetch_status, FetchStatus::Okay);
        assert_eq!(v.fetched_at, 500);
    }
    // a second identical cycle leaves the same three ids
    let r2 = c.run_fetch_cycle(FetchResponse::Response { status: 200 }, 600);
    assert_eq!(r2, Ok(3));
    assert_eq!(c.list_videos().len(), 3);
}

#[test]
fn fetch_cycle_http_error() {
    let (mut c, _) = admin_catalog();
    let r = c.run_fetch_cycle(FetchResponse::Response { status: 404 }, 500);
    assert_eq!(r, Err(FetchError::Http(404)));
    assert!(c.list_videos().is_empty());
}

#[test]
fn fetch_cycle_transport_error() {
    let (mut c, _) = admin_catalog();
    let r = c.run_fetch_cycle(FetchResponse::Transport("timeout".to_string()), 500);
    assert_eq!(r, Err(FetchError::Transport("timeout".to_string())));
    assert!(c.list_videos().is_empty());
}

#[test]
fn manual_poll_success_and_failure_messages() {
    let (mut c, caller) = admin_catalog();
    let r = c.manual_poll(&caller, FetchResponse::Response { status: 404 }, 300);
    assert_eq!(r, Result_::Error("Poll failed: HTTP error: 404".to_string()));
    assert_eq!(c.get_stats().last_poll, None);

    let r = c.manual_poll(&caller, FetchResponse::Transport("connection reset".to_string()), 300);
    assert_eq!(r, Result_::Error("Poll failed: Request failed: connection reset".to_string()));
    assert_eq!(c.get_stats().last_poll, None);

    let r = c.manual_poll(&caller, FetchResponse::Response { status: 200 }, 300);
    assert!(matches!(r, Result_::Okay));
    assert_eq!(c.get_stats().last_poll, Some(300));
}

#[test]
fn stats_consistency() {
    let (mut c, caller) = admin_catalog();
    c.add_or_update_video(record("a", "x"), 1);
    c.add_or_update_video(record("b", "x"), 2);
    let r = c.manual_poll(&caller, FetchResponse::Response { status: 200 }, 900);
    assert!(matches!(r, Result_::Okay));
    let stats = c.get_stats();
    assert_eq!(stats.total_videos, 5); // 2 inserted + 3 fetched, all ids distinct
    assert_eq!(stats.last_poll, Some(900));
}

#[test]
fn stats_on_fresh_catalog() {
    let (c, _) = admin_catalog();
    let stats = c.get_stats();
    assert_eq!(stats.total_videos, 0);
    assert_eq!(stats.last_poll, None);
}
