use focuser::browser::{known_browsers, BrowserType};
use focuser::enforcement::{BrowserEnforcement, RunningProcess};

fn make_process(name: &str, pid: u32) -> RunningProcess {
    RunningProcess {
        pid,
        name: name.to_string(),
        exe_path: None,
        window_title: None,
    }
}

/// The first process name under which Chrome is recognised.
fn chrome_name() -> &'static str {
    known_browsers()
        .iter()
        .find(|b| b.browser_type == BrowserType::Chrome)
        .unwrap()
        .exe_names[0]
}

#[test]
fn test_no_active_blocks_returns_empty() {
    let mut enf = BrowserEnforcement::new(60, true);
    let processes = vec![make_process(chrome_name(), 100)];
    let connected: Vec<BrowserType> = Vec::new();

    let result = enf.evaluate(&processes, &connected, false);
    assert!(result.is_empty());
}

#[test]
fn test_disabled_returns_empty() {
    let mut enf = BrowserEnforcement::new(60, false);
    let processes = vec![make_process(chrome_name(), 100)];
    let connected: Vec<BrowserType> = Vec::new();

    let result = enf.evaluate(&processes, &connected, true);
    assert!(result.is_empty());
    assert!(enf.grace_remaining(&BrowserType::Chrome).is_none());
}

#[test]
fn test_connected_browser_not_killed() {
    let mut enf = BrowserEnforcement::new(0, true);
    let processes = vec![make_process(chrome_name(), 100)];
    let connected = vec![BrowserType::Chrome];

    let result = enf.evaluate(&processes, &connected, true);
    assert!(result.is_empty());
}

#[test]
fn test_grace_period_starts_then_kills() {
    let mut enf = BrowserEnforcement::new(0, true);
    let processes = vec![make_process(chrome_name(), 100)];
    let connected: Vec<BrowserType> = Vec::new();

    let _ = enf.evaluate(&processes, &connected, true);
    let result = enf.evaluate(&processes, &connected, true);
    assert!(result.contains(&100));
}

#[test]
fn test_non_browser_process_ignored() {
    let mut enf = BrowserEnforcement::new(0, true);
    let processes = vec![make_process("notepad.exe", 200)];
    let connected: Vec<BrowserType> = Vec::new();

    let result = enf.evaluate(&processes, &connected, true);
    assert!(result.is_empty());
}

#[test]
fn test_grace_remaining() {
    let mut enf = BrowserEnforcement::new(60, true);
    let processes = vec![make_process(chrome_name(), 100)];
    let connected: Vec<BrowserType> = Vec::new();

    enf.evaluate(&processes, &connected, true);

    let remaining = enf.grace_remaining(&BrowserType::Chrome);
    assert!(remaining.is_some());
    assert!(remaining.unwrap() <= 60);
}

#[test]
fn test_update_settings_disables_and_clears_grace() {
    let mut enf = BrowserEnforcement::new(60, true);
    let processes = vec![make_process(chrome_name(), 100)];
    let connected: Vec<BrowserType> = Vec::new();

    enf.evaluate(&processes, &connected, true);
    assert!(enf.grace_remaining(&BrowserType::Chrome).is_some());

    enf.update_settings(30, false);

    assert!(enf.evaluate(&processes, &connected, true).is_empty());
    assert!(enf.grace_remaining(&BrowserType::Chrome).is_none());
}

#[test]
fn grace_runs_only_for_unconnected_running_browsers() {
    let mut enf = BrowserEnforcement::new(60, true);
    let processes = vec![make_process(chrome_name(), 100), make_process("firefox.exe", 101)];
    let connected = vec![BrowserType::Firefox];
    assert!(enf.evaluate(&processes, &connected, true).is_empty());
    assert!(enf.grace_remaining(&BrowserType::Chrome).is_some());
    assert!(enf.grace_remaining(&BrowserType::Firefox).is_none());
    assert!(enf.grace_remaining(&BrowserType::Edge).is_none());
    // Chrome stops running: its grace period is dropped.
    let only_firefox = vec![make_process("firefox.exe", 101)];
    enf.evaluate(&only_firefox, &connected, true);
    assert!(enf.grace_remaining(&BrowserType::Chrome).is_none());
}

#[test]
fn evaluate_at_closes_every_process_of_an_expired_browser() {
    let mut enf = BrowserEnforcement::new(10, true);
    let processes = vec![
        make_process("chrome.exe", 1),
        make_process("notepad.exe", 2),
        make_process("Chrome.exe", 3),
    ];
    let connected: Vec<BrowserType> = Vec::new();
    assert!(enf.evaluate_at(&processes, &connected, true, 5).is_empty());
    assert_eq!(enf.grace_remaining_at(&BrowserType::Chrome, 5), Some(10));
    assert_eq!(enf.grace_remaining_at(&BrowserType::Chrome, 5_500_000_000), Some(4));
    assert!(enf.evaluate_at(&processes, &connected, true, 10_000_000_004).is_empty());
    assert_eq!(enf.evaluate_at(&processes, &connected, true, 10_000_000_005), vec![1, 3]);
    assert!(enf.grace_remaining_at(&BrowserType::Chrome, 10_000_000_005).is_none());
}

#[test]
fn a_family_is_never_closed_by_two_evaluations_in_a_row() {
    let mut enf = BrowserEnforcement::new(0, true);
    let processes = vec![make_process("chrome.exe", 7)];
    let connected: Vec<BrowserType> = Vec::new();
    assert!(enf.evaluate_at(&processes, &connected, true, 1).is_empty());
    assert_eq!(enf.evaluate_at(&processes, &connected, true, 2), vec![7]);
    assert!(enf.evaluate_at(&processes, &connected, true, 3).is_empty());
    assert_eq!(enf.evaluate_at(&processes, &connected, true, 4), vec![7]);
}

#[test]
fn evaluation_time_never_goes_back() {
    let mut enf = BrowserEnforcement::new(10, true);
    let processes = vec![make_process("chrome.exe", 7)];
    let connected: Vec<BrowserType> = Vec::new();
    assert!(enf.evaluate_at(&processes, &connected, true, 20_000_000_000).is_empty());
    // An earlier time counts as the latest evaluation's time.
    assert!(enf.evaluate_at(&processes, &connected, true, 0).is_empty());
    assert_eq!(enf.grace_remaining_at(&BrowserType::Chrome, 20_000_000_000), Some(10));
    assert_eq!(enf.evaluate_at(&processes, &connected, true, 30_000_000_000), vec![7]);
}
