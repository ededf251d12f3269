use focuser::types::{
    AppRule, BlockList, ExceptionRule, LocalMoment, Schedule, TimeSlot, WebsiteRule, Weekday,
};

#[test]
fn domain_checks_ignore_letter_case() {
    let mut list = BlockList::new("Case");
    list.websites.push(WebsiteRule::domain("Reddit.COM"));
    assert!(list.should_block_domain("WWW.reddit.com"));
    assert!(list.should_block_domain("reddit.com"));
    list.exceptions.push(ExceptionRule::domain("OLD.Reddit.com"));
    assert!(!list.should_block_domain("old.REDDIT.com"));
}

#[test]
fn url_path_rule_matches_its_host_for_domains() {
    let rule = WebsiteRule::url_path("Reddit.com/r/games");
    assert!(rule.matches_domain("reddit.com"));
    assert!(rule.matches_domain("www.reddit.com"));
    assert!(!rule.matches_domain("games.com"));
    assert!(rule.matches_url("https://www.reddit.com/r/games/top"));
    assert!(!rule.matches_url("https://www.reddit.com/r/rust"));
}

#[test]
fn url_matching_per_kind() {
    assert!(WebsiteRule::domain("reddit.com").matches_url("HTTPS://Reddit.com/x"));
    assert!(WebsiteRule::keyword("Shorts").matches_url("https://youtube.com/shorts/1"));
    assert!(WebsiteRule::wildcard("https://*.social.*/**").matches_url("https://www.social.network/a/b"));
    assert!(!WebsiteRule::wildcard("*.social.*").matches_url("https://www.social.network/a"));
    assert!(WebsiteRule::entire_internet().matches_url("anything"));
}

#[test]
fn wildcard_exception_lets_domains_through() {
    let mut list = BlockList::new("W");
    list.websites.push(WebsiteRule::entire_internet());
    list.exceptions.push(ExceptionRule::wildcard("*.EDU"));
    assert!(!list.should_block_domain("mit.edu"));
    assert!(list.should_block_domain("mit.com"));
}

#[test]
fn app_rules_by_path_and_title_ignore_case() {
    let mut list = BlockList::new("Apps");
    list.applications.push(AppRule::path("C:\\Games\\Steam.exe"));
    list.applications.push(AppRule::window_title("netflix"));
    assert!(list.should_block_app("x.exe", Some("c:\\games\\steam.EXE"), None));
    assert!(!list.should_block_app("steam.exe", None, None));
    assert!(list.should_block_app("x.exe", None, Some("Watch NETFLIX now")));
    assert!(!list.should_block_app("x.exe", None, Some("Netfli")));
}

#[test]
fn disabled_rules_do_not_block() {
    let mut list = BlockList::new("Off");
    let mut rule = WebsiteRule::domain("a.com");
    rule.enabled = false;
    list.websites.push(rule);
    assert!(!list.should_block_domain("a.com"));
}

#[test]
fn schedule_slots_decide_at_given_moments() {
    let mut list = BlockList::new("Sched");
    list.websites.push(WebsiteRule::domain("a.com"));
    list.schedule = Some(Schedule {
        id: 1,
        name: "s".into(),
        time_slots: vec![
            TimeSlot::new(Weekday::Mon, 9 * 3600, 17 * 3600),
            TimeSlot::new(Weekday::Fri, 22 * 3600, 2 * 3600),
        ],
        enabled: true,
    });
    let at = |day, seconds| LocalMoment { day, seconds };
    assert!(list.should_block_domain_at("a.com", at(Weekday::Mon, 9 * 3600)));
    assert!(!list.should_block_domain_at("a.com", at(Weekday::Mon, 17 * 3600)));
    assert!(!list.should_block_domain_at("a.com", at(Weekday::Tue, 10 * 3600)));
    assert!(list.should_block_domain_at("a.com", at(Weekday::Fri, 23 * 3600)));
    assert!(list.should_block_domain_at("a.com", at(Weekday::Fri, 3600)));
    assert!(!list.should_block_domain_at("a.com", at(Weekday::Fri, 12 * 3600)));
    list.schedule.as_mut().unwrap().enabled = false;
    assert!(list.should_block_domain_at("a.com", at(Weekday::Tue, 10 * 3600)));
}

#[test]
fn ids_are_fresh() {
    assert_ne!(WebsiteRule::domain("a").id, WebsiteRule::domain("a").id);
}
