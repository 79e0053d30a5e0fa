use ag_accept::action::{ActionCommand, ActionEvent, ClickPoint};
use ag_accept::engine::{is_focused_title, Automation, EngineConfig};
use ag_accept::events::{Event, WindowStat};
use ag_accept::screen::App;
use ag_accept::tree::{UiNode, UiTree};

fn node(name: Option<&str>, ty: Option<&str>, parent: Option<usize>, children: Vec<usize>) -> UiNode {
    UiNode {
        name: name.map(|s| s.to_string()),
        control_type: ty.map(|s| s.to_string()),
        parent,
        children,
    }
}

fn config(target: &str, buttons: &[&str], context: &[&str]) -> EngineConfig {
    EngineConfig {
        interval_ms: 1000,
        target_window_title: target.to_string(),
        button_patterns: buttons.iter().map(|s| s.to_string()).collect(),
        context_patterns: context.iter().map(|s| s.to_string()).collect(),
    }
}

/// desktop(0) -> "FooBar"(1) -> "Accept" button(2)
fn foo_tree() -> UiTree {
    UiTree {
        nodes: vec![
            node(Some("Desktop"), None, None, vec![1]),
            node(Some("FooBar"), Some("Window"), Some(0), vec![2]),
            node(Some("Accept"), Some("Button"), Some(1), vec![]),
        ],
    }
}

fn logs(events: &[Event]) -> Vec<String> {
    events
        .iter()
        .filter_map(|e| match e {
            Event::Log(s) => Some(s.clone()),
            _ => None,
        })
        .collect()
}

fn statuses(events: &[Event]) -> Vec<String> {
    events
        .iter()
        .filter_map(|e| match e {
            Event::Status(s) => Some(s.clone()),
            _ => None,
        })
        .collect()
}

fn snapshots(events: &[Event]) -> Vec<Vec<WindowStat>> {
    events
        .iter()
        .filter_map(|e| match e {
            Event::VisibleWindows(v) => Some(v.clone()),
            _ => None,
        })
        .collect()
}

/// Runs the action steps with the platform answering `invoke_ok`.
fn act(engine: &mut Automation, name: &String, invoke_ok: bool) -> ActionCommand {
    let mut cmd = engine.action_step(name, ActionEvent::Start);
    assert!(matches!(cmd, ActionCommand::Invoke));
    cmd = engine.action_step(name, ActionEvent::Invoked(invoke_ok));
    cmd
}

#[test]
fn end_to_end_accepts_then_uses_tier_one() {
    let t = foo_tree();
    let mut e = Automation::new(config("Foo", &["Accept"], &[]));
    let start = e.begin_cycle(&t, None);
    assert_eq!(start.shortcut, None);
    assert_eq!(start.targets, vec![("FooBar".to_string(), 1)]);
    let mut attempts = 0;
    for (title, w) in start.targets.iter() {
        let scan = e.scan_window(&t, *w, title);
        if let Some(b) = e.conclude_window(&t, title, &scan, 20, &start.focused_lower) {
            attempts += 1;
            let name = t.name(b).unwrap_or_default();
            assert!(matches!(act(&mut e, &name, true), ActionCommand::Succeeded));
        }
    }
    assert!(!e.end_cycle());
    assert_eq!(attempts, 1);
    assert_eq!(e.scanned_roots, vec![1]);
    assert_eq!(e.cached_button, Some(2));
    assert_eq!(e.cached_ancestry, vec![1, 0]);
    let events = e.drain_events();
    let l = logs(&events);
    assert_eq!(l, vec!["Found button: 'Accept' in 'FooBar'".to_string(), "Clicked 'Accept' (Invoke)".to_string()]);
    assert_eq!(l.iter().filter(|s| s.starts_with("Clicked")).count(), 1);
    assert_eq!(statuses(&events), vec!["Success!".to_string()]);
    assert!(matches!(&events[0], Event::AllWindows(v) if *v == vec!["FooBar".to_string()]));
    let context = events.iter().find_map(|ev| match ev {
        Event::ContextData { button, neighbors } => Some((button.clone(), neighbors.clone())),
        _ => None,
    });
    assert_eq!(context, Some(("Accept".to_string(), vec!["*MATCH*: \"Accept\"".to_string()])));

    // Next cycle: the cached control still resolves, so nothing is scanned.
    let next = e.begin_cycle(&t, None);
    assert_eq!(next.shortcut, Some(2));
    assert!(e.scanned_roots.is_empty());
    let l2 = logs(&e.drain_events());
    assert_eq!(l2, vec!["Using Cached Button: 'Accept' (Instant Scan)".to_string()]);
}

#[test]
fn all_windows_lists_desktop_children_only() {
    let t = foo_tree();
    let mut e = Automation::new(config("Foo", &["Accept"], &[]));
    e.begin_cycle(&t, None);
    let events = e.drain_events();
    assert!(matches!(&events[0], Event::AllWindows(v) if *v == vec!["FooBar".to_string()]));
    let snaps = snapshots(&events);
    assert_eq!(snaps.len(), 1);
    assert_eq!(snaps[0].len(), 1);
    assert_eq!(snaps[0][0].title, "FooBar");
    assert_eq!(snaps[0][0].duration_ms, 0);
    assert!(!snaps[0][0].is_target);
}

#[test]
fn tier_one_skips_scanning() {
    let t = foo_tree();
    let mut e = Automation::new(config("Foo", &["Accept"], &[]));
    e.cached_button = Some(2);
    e.cached_ancestry = vec![7, 8];
    let start = e.begin_cycle(&t, None);
    assert_eq!(start.shortcut, Some(2));
    assert!(e.scanned_roots.is_empty());
    assert_eq!(e.cached_button, Some(2));
    assert_eq!(e.cached_ancestry, vec![1, 0]);
}

#[test]
fn stale_tier_one_falls_back_to_ancestor_scan() {
    // desktop(0) -> window(1) -> [panel(2) -> [button(4)], stale old button(3)]
    let t = UiTree {
        nodes: vec![
            node(Some("Desktop"), None, None, vec![1]),
            node(Some("FooBar"), Some("Window"), Some(0), vec![2, 3]),
            node(Some("Panel"), Some("Pane"), Some(1), vec![4]),
            node(Some(""), Some("Button"), Some(1), vec![]),
            node(Some("Accept"), Some("Button"), Some(2), vec![]),
        ],
    };
    let mut e = Automation::new(config("Foo", &["Accept"], &[]));
    e.cached_button = Some(3);
    e.cached_ancestry = vec![2, 1];
    let start = e.begin_cycle(&t, None);
    assert_eq!(start.shortcut, Some(4));
    assert_eq!(e.scanned_roots, vec![2]);
    assert_eq!(e.cached_button, Some(4));
    assert_eq!(e.cached_ancestry, vec![2, 1, 0]);
}

#[test]
fn unreadable_ancestors_are_skipped() {
    let t = UiTree {
        nodes: vec![
            node(Some("Desktop"), None, None, vec![1]),
            node(Some("FooBar"), Some("Window"), Some(0), vec![2]),
            node(None, Some("Pane"), Some(1), vec![3]),
            node(Some("Accept"), Some("Button"), Some(2), vec![]),
        ],
    };
    let mut e = Automation::new(config("Foo", &["Accept"], &[]));
    e.cached_button = Some(77);
    e.cached_ancestry = vec![2, 50, 1];
    let start = e.begin_cycle(&t, None);
    assert_eq!(start.shortcut, Some(3));
    assert_eq!(e.scanned_roots, vec![1]);
}

#[test]
fn stale_cache_without_hit_clears_tier_one() {
    let t = UiTree {
        nodes: vec![
            node(Some("Desktop"), None, None, vec![1]),
            node(Some("FooBar"), Some("Window"), Some(0), vec![]),
        ],
    };
    let mut e = Automation::new(config("Foo", &["Accept"], &[]));
    e.cached_button = Some(9);
    e.cached_ancestry = vec![1];
    let start = e.begin_cycle(&t, None);
    assert_eq!(start.shortcut, None);
    assert_eq!(e.cached_button, None);
    assert_eq!(e.cached_ancestry, vec![1]);
    assert_eq!(e.scanned_roots, vec![1]);
}

#[test]
fn tier_two_needs_context_when_configured() {
    let t = foo_tree();
    let mut e = Automation::new(config("Foo", &["Accept"], &["Run command?"]));
    e.cached_ancestry = vec![1];
    let start = e.begin_cycle(&t, None);
    assert_eq!(start.shortcut, None);
    assert_eq!(e.scanned_roots, vec![1]);
}

#[test]
fn missing_target_is_reported() {
    let t = foo_tree();
    let mut e = Automation::new(config("Nothing", &["Accept"], &[]));
    let start = e.begin_cycle(&t, None);
    assert!(start.targets.is_empty());
    let events = e.drain_events();
    assert_eq!(statuses(&events), vec!["Target 'Nothing' not found.".to_string()]);
}

#[test]
fn button_without_context_is_not_acted_on() {
    let t = foo_tree();
    let mut e = Automation::new(config("Foo", &["Accept"], &["Run command?"]));
    let start = e.begin_cycle(&t, None);
    let (title, w) = start.targets[0].clone();
    let scan = e.scan_window(&t, w, &title);
    assert_eq!(scan.button, Some(2));
    assert!(!scan.context_found);
    assert_eq!(e.conclude_window(&t, &title, &scan, 5, &start.focused_lower), None);
    assert_eq!(e.cached_button, None);
}

#[test]
fn slow_scan_backs_off_and_is_remembered() {
    let t = foo_tree();
    let mut e = Automation::new(config("Foo", &["Nope"], &[]));
    let start = e.begin_cycle(&t, Some("FooBar".to_string()));
    assert_eq!(start.focused_lower, "foobar");
    let (title, w) = start.targets[0].clone();
    let scan = e.scan_window(&t, w, &title);
    assert_eq!(e.conclude_window(&t, &title, &scan, 1500, &start.focused_lower), None);
    assert!(e.end_cycle());
    let sleep = e.sleep_after_cycle(true);
    assert_eq!(sleep, 2000);
    let events = e.drain_events();
    assert_eq!(logs(&events), vec!["High Load: 'FooBar' took 1500ms".to_string()]);
    assert_eq!(statuses(&events), vec!["Backoff (High Load) - Sleeping 2.0s...".to_string()]);
    assert!(matches!(&events[2], Event::ProcessingWindow(w) if w == "FooBar"));
    let snaps = snapshots(&events);
    let last = snaps.last().unwrap();
    assert_eq!(last.len(), 1);
    assert_eq!(last[0].duration_ms, 1500);
    assert!(last[0].is_target);
    assert!(last[0].is_focused);
    assert_eq!(e.durations.get(&"FooBar".to_string()), 1500);

    // The next cycle's first snapshot shows the remembered duration.
    e.begin_cycle(&t, None);
    let snaps = snapshots(&e.drain_events());
    assert_eq!(snaps[0][0].duration_ms, 1500);
    assert!(!snaps[0][0].is_focused);
}

#[test]
fn normal_cycle_sleeps_interval_with_status() {
    let mut e = Automation::new(config("Foo", &["Accept"], &[]));
    assert_eq!(e.sleep_after_cycle(false), 1000);
    e.report_timing(42);
    let events = e.drain_events();
    assert_eq!(statuses(&events), vec!["Sleeping (1.0s)...".to_string()]);
    assert!(matches!(events[1], Event::Timing(42)));
    assert!(e.drain_events().is_empty());
}

#[test]
fn published_snapshot_is_sorted() {
    let mut e = Automation::new(config("Foo", &["Accept"], &[]));
    let stat = |t: &str| WindowStat { title: t.to_string(), duration_ms: 1, is_target: true, is_focused: false };
    e.publish_snapshot(vec![stat("zeta"), stat("Alpha"), stat("beta")]);
    let snaps = snapshots(&e.drain_events());
    let titles: Vec<String> = snaps[0].iter().map(|s| s.title.clone()).collect();
    assert_eq!(titles, vec!["Alpha", "beta", "zeta"]);
}

#[test]
fn click_fallback_logs() {
    let mut e = Automation::new(config("Foo", &["Accept"], &[]));
    let name = "Accept".to_string();
    assert!(matches!(act(&mut e, &name, false), ActionCommand::QueryPoint));
    let p = ClickPoint { x: 5, y: -7 };
    assert!(matches!(e.action_step(&name, ActionEvent::PointRead(Some(p))), ActionCommand::Click(_)));
    assert!(matches!(e.action_step(&name, ActionEvent::Clicked(true, p)), ActionCommand::Succeeded));
    let events = e.drain_events();
    assert_eq!(logs(&events), vec!["Clicked 'Accept' (Click) at (5, -7)".to_string()]);
    assert_eq!(statuses(&events), vec!["Success!".to_string()]);
}

#[test]
fn origin_point_fails_the_action() {
    let mut e = Automation::new(config("Foo", &["Accept"], &[]));
    let name = "Accept".to_string();
    act(&mut e, &name, false);
    let cmd = e.action_step(&name, ActionEvent::PointRead(Some(ClickPoint { x: 0, y: 0 })));
    assert!(matches!(cmd, ActionCommand::Failed));
    let events = e.drain_events();
    assert_eq!(
        logs(&events),
        vec![
            "Skipping click: Invalid coordinates (0,0) for 'Accept'".to_string(),
            "ERROR: Failed to click button via Invoke or Click".to_string(),
        ]
    );
    assert_eq!(statuses(&events), vec!["Action Failed".to_string()]);
}

#[test]
fn missing_point_and_failed_click_fail_the_action() {
    let mut e = Automation::new(config("Foo", &["Accept"], &[]));
    let name = "Accept".to_string();
    assert!(matches!(e.action_step(&name, ActionEvent::PointRead(None)), ActionCommand::Failed));
    let l = logs(&e.drain_events());
    assert_eq!(l[0], "Skipping click: No clickable point for 'Accept'");
    let p = ClickPoint { x: 1, y: 1 };
    assert!(matches!(e.action_step(&name, ActionEvent::Clicked(false, p)), ActionCommand::Failed));
    let events = e.drain_events();
    assert_eq!(logs(&events), vec!["ERROR: Failed to click button via Invoke or Click".to_string()]);
    assert_eq!(statuses(&events), vec!["Action Failed".to_string()]);
}

#[test]
fn start_is_announced() {
    let mut e = Automation::new(config("Foo", &["Accept"], &[]));
    e.announce_start();
    assert_eq!(logs(&e.drain_events()), vec!["Starting Automation Loop...".to_string()]);
}

#[test]
fn interface_keeps_the_last_hundred_logs() {
    let mut app = App::new("Foo".to_string(), 1000);
    assert_eq!(app.logs, vec!["Welcome to Ag-Accept TUI".to_string()]);
    assert_eq!(app.status, "Idle");
    for i in 0..100 {
        app.on_log(format!("line {}", i));
    }
    assert_eq!(app.logs.len(), 100);
    assert_eq!(app.logs[0], "line 0");
    assert_eq!(app.logs[99], "line 99");
    app.on_event(Event::Log("last".to_string()));
    assert_eq!(app.logs.len(), 100);
    assert_eq!(app.logs[0], "line 1");
    assert_eq!(app.logs[99], "last");
}

#[test]
fn interface_applies_events() {
    let mut app = App::new("Foo".to_string(), 1000);
    app.on_event(Event::Status("Success!".to_string()));
    app.on_event(Event::Timing(12));
    app.on_event(Event::ProcessingWindow("FooBar".to_string()));
    app.on_event(Event::AllWindows(vec!["FooBar".to_string()]));
    app.on_event(Event::ContextData { button: "Accept".to_string(), neighbors: vec!["*MATCH*: \"Accept\"".to_string()] });
    assert_eq!(app.status, "Success!");
    assert_eq!(app.last_scan_ms, 12);
    assert_eq!(app.processing_window, Some("FooBar".to_string()));
    assert_eq!(app.all_windows, vec!["FooBar".to_string()]);
    assert_eq!(app.context_data, Some(("Accept".to_string(), vec!["*MATCH*: \"Accept\"".to_string()])));
    assert!(!app.should_quit);
    app.quit();
    assert!(app.should_quit);
}

#[test]
fn focus_needs_a_known_title() {
    assert!(is_focused_title(&"foobar".to_string(), &"foobar".to_string()));
    assert!(!is_focused_title(&"".to_string(), &"".to_string()));
    assert!(!is_focused_title(&"foobar".to_string(), &"other".to_string()));
}

#[test]
fn focused_element_names_its_top_level_window() {
    // desktop(0) -> "FooBar"(1) -> panel(2) -> edit(3)
    let t = UiTree {
        nodes: vec![
            node(Some("Desktop"), None, None, vec![1]),
            node(Some("FooBar"), Some("Window"), Some(0), vec![2]),
            node(Some("Panel"), Some("Pane"), Some(1), vec![3]),
            node(Some("Edit"), Some("Edit"), Some(2), vec![]),
        ],
    };
    assert_eq!(t.focused_window_name(3), Some("FooBar".to_string()));
    assert_eq!(t.focused_window_name(1), Some("FooBar".to_string()));
    assert_eq!(t.focused_window_name(0), Some("Desktop".to_string()));
    assert_eq!(t.focused_window_name(9), None);
}

#[test]
fn focus_walk_is_capped_on_cycles() {
    let t = UiTree {
        nodes: vec![
            node(Some("Desktop"), None, None, vec![]),
            node(Some("a"), None, Some(2), vec![2]),
            node(Some("b"), None, Some(1), vec![1]),
        ],
    };
    assert_eq!(t.focused_window_name(1), Some("a".to_string()));
}

#[test]
fn snapshot_with_equal_titles_ignores_discovery_order() {
    let mut e = Automation::new(config("Foo", &["Accept"], &[]));
    let row = |t: &str, ms: u64, focused: bool| WindowStat { title: t.to_string(), duration_ms: ms, is_target: true, is_focused: focused };
    e.publish_snapshot(vec![row("Foo", 30, false), row("Bar", 5, false), row("Foo", 10, true), row("Foo", 10, false)]);
    e.publish_snapshot(vec![row("Foo", 10, false), row("Foo", 10, true), row("Foo", 30, false), row("Bar", 5, false)]);
    let snaps = snapshots(&e.drain_events());
    let view = |v: &Vec<WindowStat>| v.iter().map(|s| (s.title.clone(), s.duration_ms, s.is_focused)).collect::<Vec<_>>();
    let expected = vec![
        ("Bar".to_string(), 5, false),
        ("Foo".to_string(), 10, false),
        ("Foo".to_string(), 10, true),
        ("Foo".to_string(), 30, false),
    ];
    assert_eq!(view(&snaps[0]), expected);
    assert_eq!(view(&snaps[1]), expected);
}

#[test]
fn action_lines_follow_pending_events() {
    let mut e = Automation::new(config("Foo", &["Accept"], &[]));
    e.announce_start();
    e.report_timing(3);
    let name = "Accept".to_string();
    assert!(matches!(act(&mut e, &name, true), ActionCommand::Succeeded));
    let events = e.drain_events();
    assert_eq!(events.len(), 4);
    assert!(matches!(&events[2], Event::Log(l) if l == "Clicked 'Accept' (Invoke)"));
    assert!(matches!(&events[3], Event::Status(s) if s == "Success!"));
}

#[test]
fn ancestor_scan_only_when_tier_one_misses() {
    let t = foo_tree();
    let mut e = Automation::new(config("Foo", &["Accept"], &[]));
    assert!(!e.needs_ancestor_scan(&t));
    e.cached_ancestry = vec![1];
    assert!(e.needs_ancestor_scan(&t));
    e.cached_button = Some(2);
    assert!(!e.needs_ancestor_scan(&t));
    e.cached_button = Some(40);
    assert!(e.needs_ancestor_scan(&t));
}
