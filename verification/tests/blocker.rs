use focuser::blocker::{
    allowance_exempts, confirm_kills, domain_blocked_with_allowances, hosts_domains,
    hosts_file_after, BlockerState, HostsAction,
};
use focuser::hosts::{HOSTS_BEGIN, HOSTS_END};
use focuser::browser::BrowserType;
use focuser::enforcement::RunningProcess;

fn strings(v: &[&str]) -> Vec<String> {
    v.iter().map(|s| s.to_string()).collect()
}

#[test]
fn every_third_tick_is_heavy_and_counter_wraps() {
    let mut st = BlockerState::new();
    let heavy: Vec<bool> = (0..6).map(|_| st.tick()).collect();
    assert_eq!(heavy, vec![false, false, true, false, false, true]);
    st.heavy_tick_counter = 255;
    assert!(st.tick());
    assert_eq!(st.heavy_tick_counter, 0);
}

#[test]
fn hosts_mode_switches_with_extension() {
    let mut st = BlockerState::new();
    assert_eq!(st.hosts_action(false), HostsAction::SyncDomains);
    assert_eq!(st.hosts_action(true), HostsAction::RemoveAll);
    assert_eq!(st.hosts_action(true), HostsAction::SyncEmpty);
    assert_eq!(st.hosts_action(false), HostsAction::SyncDomains);
    assert!(st.was_using_hosts);
}

#[test]
fn allowance_exemption_matches_domain_and_subdomains() {
    let ex = strings(&["youtube.com"]);
    assert!(allowance_exempts("youtube.com", &ex));
    assert!(allowance_exempts("WWW.YouTube.com", &ex));
    assert!(allowance_exempts("m.youtube.com", &ex));
    assert!(!allowance_exempts("notyoutube.com", &ex));
    assert!(!allowance_exempts("youtube.com.evil", &ex));
    assert!(!domain_blocked_with_allowances("www.youtube.com", &ex, true));
    assert!(domain_blocked_with_allowances("reddit.com", &ex, true));
    assert!(!domain_blocked_with_allowances("reddit.com", &ex, false));
}

#[test]
fn hosts_domains_sorted_unique_without_active_allowances() {
    let blocked = strings(&["reddit.com", "youtube.com", "a.com", "www.youtube.com"]);
    let exhausted = strings(&["x.com", "a.com"]);
    let active = strings(&["YouTube.com"]);
    let out = hosts_domains(&blocked, &exhausted, &active);
    assert_eq!(out, strings(&["a.com", "reddit.com", "x.com"]));
    let out = hosts_domains(&strings(&["b", "B", "a", "b"]), &[].to_vec(), &[].to_vec());
    assert_eq!(out, strings(&["B", "a", "b"]));
}

#[test]
fn confirm_kills_spares_reconnected_browsers() {
    let procs = vec![
        RunningProcess { pid: 1, name: "chrome.exe".into(), exe_path: None, window_title: None },
        RunningProcess { pid: 2, name: "firefox.exe".into(), exe_path: None, window_title: None },
        RunningProcess { pid: 3, name: "chrome.exe".into(), exe_path: None, window_title: None },
    ];
    let kills = vec![1, 2, 3];
    assert_eq!(confirm_kills(&procs, &kills, &vec![BrowserType::Chrome]), vec![2]);
    assert_eq!(confirm_kills(&procs, &kills, &vec![]), vec![1, 2, 3]);
}

#[test]
fn browser_statuses_for_every_family() {
    let st = focuser::blocker::browser_statuses(&vec![BrowserType::Edge], &vec![BrowserType::Edge, BrowserType::Opera]);
    assert_eq!(st.len(), 5);
    assert_eq!(st[2].display_name, "Microsoft Edge");
    assert!(st[2].running && st[2].extension_connected);
    assert!(!st[4].running && st[4].extension_connected);
    assert!(!st[0].running && !st[0].extension_connected);
}

#[test]
fn process_decisions() {
    let ex = strings(&["Steam.exe"]);
    assert!(focuser::blocker::allowance_blocks_app("STEAM.EXE", &ex));
    assert!(!focuser::blocker::allowance_blocks_app("steam", &ex));
    assert!(!focuser::blocker::list_blocks_process("steam.exe", &ex, true));
    assert!(focuser::blocker::list_blocks_process("discord.exe", &ex, true));
    assert!(!focuser::blocker::list_blocks_process("discord.exe", &ex, false));
    assert!(!focuser::blocker::may_terminate(4, 100));
    assert!(!focuser::blocker::may_terminate(100, 100));
    assert!(focuser::blocker::may_terminate(5, 100));
}

#[test]
fn hosts_file_after_writes_or_removes_the_section() {
    let content = "127.0.0.1 localhost\n";
    let blocked = strings(&["b.com", "a.com", "b.com"]);
    let exhausted = strings(&["c.com"]);
    let active = strings(&["A.com"]);
    let synced = hosts_file_after(HostsAction::SyncDomains, content, &blocked, &exhausted, &active);
    let expected = format!(
        "127.0.0.1 localhost\n{HOSTS_BEGIN}\n127.0.0.1 b.com\n::1 b.com\n127.0.0.1 c.com\n::1 c.com\n{HOSTS_END}\n"
    );
    assert_eq!(synced, expected);
    let removed = hosts_file_after(HostsAction::RemoveAll, &synced, &blocked, &exhausted, &active);
    assert_eq!(removed, content);
    let empty = hosts_file_after(HostsAction::SyncEmpty, &synced, &blocked, &exhausted, &active);
    assert_eq!(empty, content);
}
