use ag_accept::action::{click_allowed, next_action, ActionCommand, ActionEvent, ClickPoint};
use ag_accept::schedule::{high_load, is_slow_scan, next_sleep_ms};

#[test]
fn normal_cycle_sleeps_the_interval() {
    assert_eq!(next_sleep_ms(1000, false), 1000);
    assert_eq!(next_sleep_ms(250, false), 250);
}

#[test]
fn backoff_doubles_with_floor() {
    assert_eq!(next_sleep_ms(1000, true), 2000);
    assert_eq!(next_sleep_ms(500, true), 2000);
    assert_eq!(next_sleep_ms(1500, true), 3000);
    assert_eq!(next_sleep_ms(u64::MAX, true), u64::MAX);
}

#[test]
fn slow_scan_threshold() {
    assert!(!is_slow_scan(1000));
    assert!(is_slow_scan(1001));
    assert!(!high_load(&vec![10, 1000, 999]));
    assert!(high_load(&vec![10, 1001]));
    assert!(!high_load(&vec![]));
}

#[test]
fn action_tries_invoke_then_click() {
    assert!(matches!(next_action(ActionEvent::Start), ActionCommand::Invoke));
    assert!(matches!(next_action(ActionEvent::Invoked(true)), ActionCommand::Succeeded));
    assert!(matches!(next_action(ActionEvent::Invoked(false)), ActionCommand::QueryPoint));
    let p = ClickPoint { x: 10, y: 20 };
    assert!(matches!(next_action(ActionEvent::PointRead(Some(p))), ActionCommand::Click(q) if q == p));
    assert!(matches!(next_action(ActionEvent::PointRead(None)), ActionCommand::Failed));
    assert!(matches!(next_action(ActionEvent::Clicked(true, p)), ActionCommand::Succeeded));
    assert!(matches!(next_action(ActionEvent::Clicked(false, p)), ActionCommand::Failed));
}

#[test]
fn origin_point_is_never_clicked() {
    let o = ClickPoint { x: 0, y: 0 };
    assert!(!click_allowed(o));
    assert!(click_allowed(ClickPoint { x: 0, y: 5 }));
    assert!(click_allowed(ClickPoint { x: -3, y: 0 }));
    assert!(matches!(next_action(ActionEvent::PointRead(Some(o))), ActionCommand::Failed));
}
