use lain_tv_backend::Catalog;
use lain_tv_backend::FetchResponse;
use lain_tv_backend::PollConfig;
use lain_tv_backend::Result_;
use lain_tv_backend::TimerAction;

// A stand-in for the host's timer table: applies an action the way the
// host must (cancel first, then arm) and reports how many timers are
// armed.
struct Host {
    armed: Vec<u64>,
}

impl Host {
    fn new() -> Host {
        Host { armed: Vec::new() }
    }

    fn apply(&mut self, act: TimerAction) {
        if let Some(t) = act.cancel {
            self.armed.retain(|&x| x != t);
        }
        if let Some(t) = act.arm {
            self.armed.push(t);
        }
    }
}

#[test]
fn single_timer_invariant() {
    let mut c = Catalog::new("proc".to_string());
    let caller = "proc".to_string();
    let mut host = Host::new();

    let steps = [
        (true, 60),
        (true, 120),
        (false, 0),
        (true, 30),
        (true, 30),
        (false, 0),
        (false, 0),
        (true, 86400),
    ];
    for (enabled, interval) in steps {
        let cfg = PollConfig { interval_seconds: interval, enabled };
        let (res, act) = c.set_poll_config(&caller, cfg);
        assert!(matches!(res, Result_::Okay));
        host.apply(act);
        assert!(host.armed.len() <= 1);
        assert_eq!(host.armed.len() == 1, enabled);
    }
}

#[test]
fn disable_then_enable_never_doubles() {
    let mut c = Catalog::new("proc".to_string());
    let caller = "proc".to_string();
    let mut host = Host::new();

    let (_, a1) = c.set_poll_config(&caller, PollConfig { interval_seconds: 60, enabled: true });
    host.apply(a1);
    assert_eq!(host.armed.len(), 1);
    let first = host.armed[0];

    let (_, a2) = c.set_poll_config(&caller, PollConfig { interval_seconds: 60, enabled: false });
    assert_eq!(a2.cancel, Some(first));
    assert_eq!(a2.arm, None);
    host.apply(a2);
    assert_eq!(host.armed.len(), 0);

    let (_, a3) = c.set_poll_config(&caller, PollConfig { interval_seconds: 60, enabled: true });
    assert_eq!(a3.cancel, None);
    host.apply(a3);
    assert_eq!(host.armed.len(), 1);
    assert_ne!(host.armed[0], first);
}

#[test]
fn reconfigure_cancels_before_arming() {
    let mut c = Catalog::new("proc".to_string());
    let caller = "proc".to_string();

    let (_, a1) = c.set_poll_config(&caller, PollConfig { interval_seconds: 10, enabled: true });
    assert_eq!(a1.cancel, None);
    let armed = a1.arm.expect("a timer must be armed");
    assert_eq!(a1.interval_seconds, 10);

    let (_, a2) = c.set_poll_config(&caller, PollConfig { interval_seconds: 20, enabled: true });
    assert_eq!(a2.cancel, Some(armed));
    assert!(a2.arm.is_some());
    assert_ne!(a2.arm, Some(armed));
    assert_eq!(a2.interval_seconds, 20);
}

#[test]
fn timer_firing_rearms_while_enabled() {
    let mut c = Catalog::new("proc".to_string());
    let caller = "proc".to_string();
    let mut host = Host::new();

    let (_, a1) = c.set_poll_config(&caller, PollConfig { interval_seconds: 60, enabled: true });
    host.apply(a1);
    let fired = host.armed[0];
    let act = c.timer_fired(FetchResponse::Response { status: 200 }, 777);
    // the spent handle is named for cancellation before the new one is armed
    assert_eq!(act.cancel, Some(fired));
    assert!(act.arm.is_some());
    assert_ne!(act.arm, Some(fired));
    assert_eq!(act.interval_seconds, 60);
    host.apply(act);
    assert_eq!(host.armed.len(), 1);
    assert_eq!(c.get_stats().last_poll, Some(777));
    assert_eq!(c.get_stats().total_videos, 3);
}

#[test]
fn raced_firing_keeps_single_timer() {
    let mut c = Catalog::new("proc".to_string());
    let caller = "proc".to_string();
    let mut host = Host::new();

    let (_, a1) = c.set_poll_config(&caller, PollConfig { interval_seconds: 60, enabled: true });
    host.apply(a1);
    // the armed timer fires; while its fetch is in flight, a
    // reconfiguration cancels it and arms a fresh handle
    let (_, a2) = c.set_poll_config(&caller, PollConfig { interval_seconds: 90, enabled: true });
    host.apply(a2);
    assert_eq!(host.armed.len(), 1);
    // the in-flight firing completes: it cancels the handle recorded at
    // completion time before re-arming, so one timer stays live
    let act = c.timer_fired(FetchResponse::Response { status: 200 }, 5);
    assert_eq!(act.cancel, a2.arm);
    host.apply(act);
    assert_eq!(host.armed.len(), 1);
}

#[test]
fn timer_firing_swallows_errors_and_stops_when_disabled() {
    let mut c = Catalog::new("proc".to_string());
    // polling left disabled: a straggler firing must not re-arm
    let act = c.timer_fired(FetchResponse::Response { status: 500 }, 42);
    assert_eq!(act.cancel, None);
    assert_eq!(act.arm, None);
    // the error is swallowed, the completion time still recorded
    assert_eq!(c.get_stats().last_poll, Some(42));
    assert_eq!(c.get_stats().total_videos, 0);
}

#[test]
fn get_poll_config_reflects_set() {
    let mut c = Catalog::new("proc".to_string());
    let caller = "proc".to_string();
    assert_eq!(c.get_poll_config(), PollConfig { interval_seconds: 86400, enabled: false });
    let cfg = PollConfig { interval_seconds: 3600, enabled: true };
    let (res, _) = c.set_poll_config(&caller, cfg);
    assert!(matches!(res, Result_::Okay));
    assert_eq!(c.get_poll_config(), cfg);
}
