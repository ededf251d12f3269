use focuser::schedule::moment_from_clock;
use focuser::types::LocalMoment;
use focuser::types::{
    new_id, AppRule, BlockList, ExceptionRule, Schedule, TimeSlot, WebsiteRule, Weekday,
};

#[test]
fn test_domain_blocking() {
    let mut list = BlockList::new("Test");
    list.websites.push(WebsiteRule::domain("reddit.com"));
    list.websites.push(WebsiteRule::keyword("game"));

    assert!(list.should_block_domain("reddit.com"));
    assert!(list.should_block_domain("www.reddit.com"));
    assert!(list.should_block_domain("old.reddit.com"));
    assert!(!list.should_block_domain("redditor.com"));

    assert!(list.should_block_domain("steamgames.com"));
    assert!(list.should_block_domain("game.co"));
    assert!(!list.should_block_domain("example.com"));
}

#[test]
fn test_exception_overrides_block() {
    let mut list = BlockList::new("Test");
    list.websites.push(WebsiteRule::entire_internet());
    list.exceptions.push(ExceptionRule::domain("example.com"));

    assert!(list.should_block_domain("reddit.com"));
    assert!(!list.should_block_domain("example.com"));
    assert!(!list.should_block_domain("sub.example.com"));
}

#[test]
fn test_wildcard_rule() {
    let rule = WebsiteRule::wildcard("*.social.*");
    assert!(rule.matches_domain("www.social.network"));
}

#[test]
fn test_app_blocking() {
    let mut list = BlockList::new("Apps");
    list.applications.push(AppRule::executable("steam.exe"));
    list.applications.push(AppRule::window_title("YouTube"));

    assert!(list.should_block_app("steam.exe", None, None));
    assert!(!list.should_block_app("chrome.exe", None, None));
    assert!(list.should_block_app("chrome.exe", None, Some("YouTube - Google Chrome")));
}

#[test]
fn test_disabled_list_blocks_nothing() {
    let mut list = BlockList::new("Disabled");
    list.enabled = false;
    list.websites.push(WebsiteRule::domain("reddit.com"));
    list.applications.push(AppRule::executable("steam.exe"));

    assert!(!list.should_block_domain("reddit.com"));
    assert!(!list.should_block_app("steam.exe", None, None));
}

/// A schedule whose slots all start and end at midnight, on every day, so
/// that it is never active.
fn never_active_schedule() -> Schedule {
    let days = [
        Weekday::Mon,
        Weekday::Tue,
        Weekday::Wed,
        Weekday::Thu,
        Weekday::Fri,
        Weekday::Sat,
        Weekday::Sun,
    ];
    Schedule {
        id: new_id(),
        name: "NeverActive".into(),
        time_slots: days.iter().map(|d| TimeSlot::new(*d, 0, 0)).collect(),
        enabled: true,
    }
}

#[test]
fn test_scheduled_inactive_does_not_block_app() {
    let mut list = BlockList::new("Scheduled");
    list.enabled = true;
    list.applications.push(AppRule::executable("discord.exe"));
    list.schedule = Some(never_active_schedule());

    assert!(!list.is_effectively_active());
    assert!(!list.should_block_app("discord.exe", None, None));
}

#[test]
fn test_scheduled_inactive_does_not_block_domain() {
    let mut list = BlockList::new("Scheduled");
    list.enabled = true;
    list.websites.push(WebsiteRule::domain("reddit.com"));
    list.schedule = Some(never_active_schedule());

    assert!(!list.should_block_domain("reddit.com"));
}

#[test]
fn test_schedule_no_slots_still_blocks() {
    let mut list = BlockList::new("AlwaysOn");
    list.enabled = true;
    list.applications.push(AppRule::executable("discord.exe"));
    list.websites.push(WebsiteRule::domain("reddit.com"));
    list.schedule = Some(Schedule {
        id: new_id(),
        name: "Test".into(),
        time_slots: vec![],
        enabled: true,
    });

    assert!(list.is_effectively_active());
    assert!(list.should_block_app("discord.exe", None, None));
    assert!(list.should_block_domain("reddit.com"));
}

#[test]
fn new_id_is_a_version_four_uuid() {
    let a = new_id();
    let b = new_id();
    assert_eq!((a >> 76) & 0xF, 4);
    assert_eq!((a >> 62) & 0x3, 2);
    assert_eq!((b >> 76) & 0xF, 4);
    assert_ne!(a, b);
}

#[test]
fn the_local_clock_reads_a_valid_moment() {
    let now = focuser::schedule::current_moment().expect("the clock reads");
    assert!(now.seconds < 86_400);
}

#[test]
fn moment_from_clock_builds_the_local_moment() {
    assert_eq!(
        moment_from_clock(Some(1_000), Some((2, 3_600))),
        Some(LocalMoment { day: Weekday::Wed, seconds: 3_600 })
    );
    assert_eq!(
        moment_from_clock(Some(1_000), Some((6, 86_399))),
        Some(LocalMoment { day: Weekday::Sun, seconds: 86_399 })
    );
    assert_eq!(moment_from_clock(None, Some((2, 3_600))), None);
    assert_eq!(moment_from_clock(Some(1_000), None), None);
}
