use focuser::commands::{
    app_rule_for, bulk_import, check_retention_days, exception_for, schedule_from_grid,
    website_rule_for, SlotInput,
};
use focuser::types::{
    AppMatchType, BlockList, ExceptionType, TimeSlot, WebsiteMatchType, WebsiteRule, Weekday,
};

fn value_of(rule: &WebsiteRule) -> (&'static str, String) {
    match &rule.match_type {
        WebsiteMatchType::Domain(v) => ("domain", v.clone()),
        WebsiteMatchType::Keyword(v) => ("keyword", v.clone()),
        WebsiteMatchType::Wildcard(v) => ("wildcard", v.clone()),
        WebsiteMatchType::UrlPath(v) => ("url_path", v.clone()),
        WebsiteMatchType::EntireInternet => ("entire_internet", String::new()),
    }
}

#[test]
fn website_rules_by_kind_name() {
    for kind in ["domain", "keyword", "wildcard", "url_path"] {
        let r = website_rule_for(kind, "v.com").unwrap();
        assert!(r.enabled);
        assert_eq!(value_of(&r), (kind, "v.com".to_string()));
    }
    let r = website_rule_for("entire_internet", "ignored").unwrap();
    assert!(matches!(r.match_type, WebsiteMatchType::EntireInternet));
    match website_rule_for("regex", "x") {
        Err(e) => assert_eq!(e, "Unknown rule type: regex"),
        Ok(_) => panic!("unknown kind accepted"),
    }
}

#[test]
fn app_rules_by_kind_name() {
    assert!(matches!(app_rule_for("exe_name", "a.exe").unwrap().match_type, AppMatchType::ExecutableName(ref v) if v == "a.exe"));
    assert!(matches!(app_rule_for("exe_path", "C:\\a.exe").unwrap().match_type, AppMatchType::ExecutablePath(ref v) if v == "C:\\a.exe"));
    assert!(matches!(app_rule_for("window_title", "YouTube").unwrap().match_type, AppMatchType::WindowTitle(ref v) if v == "YouTube"));
    match app_rule_for("bundle", "x") {
        Err(e) => assert_eq!(e, "Unknown rule type: bundle"),
        Ok(_) => panic!("unknown kind accepted"),
    }
}

#[test]
fn exceptions_by_kind_name() {
    assert!(matches!(exception_for("wildcard", "*.a.com").exception_type, ExceptionType::Wildcard(ref p) if p == "*.a.com"));
    assert!(matches!(exception_for("domain", "a.com").exception_type, ExceptionType::Domain(ref d) if d == "a.com"));
    assert!(matches!(exception_for("anything", "a.com").exception_type, ExceptionType::Domain(ref d) if d == "a.com"));
}

#[test]
fn bulk_import_normalises_and_skips_duplicates_and_comments() {
    let mut list = BlockList::new("Import");
    list.websites.push(WebsiteRule::domain("Reddit.com"));
    let lines: Vec<String> = [
        "  YouTube.com  ",
        "",
        "   ",
        "# social",
        "reddit.com",
        "youtube.COM",
        "x.com",
    ]
    .iter()
    .map(|s| s.to_string())
    .collect();
    let added = bulk_import(&mut list, &lines, "domain");
    assert_eq!(added, 2);
    let values: Vec<_> = list.websites.iter().map(value_of).collect();
    assert_eq!(
        values,
        vec![
            ("domain", "Reddit.com".to_string()),
            ("domain", "youtube.com".to_string()),
            ("domain", "x.com".to_string()),
        ]
    );
}

#[test]
fn bulk_import_kinds() {
    let mut list = BlockList::new("Import");
    let lines = vec!["Game".to_string()];
    assert_eq!(bulk_import(&mut list, &lines, "keyword"), 1);
    assert_eq!(value_of(&list.websites[0]), ("keyword", "game".to_string()));
    assert_eq!(bulk_import(&mut list, &lines, "wildcard"), 0);
    let lines = vec!["*.a.com".to_string()];
    assert_eq!(bulk_import(&mut list, &lines, "wildcard"), 1);
    let lines = vec!["a.com/b".to_string()];
    assert_eq!(bulk_import(&mut list, &lines, "url_path"), 1);
    let lines = vec!["c.com".to_string()];
    assert_eq!(bulk_import(&mut list, &lines, "other"), 1);
    let kinds: Vec<_> = list.websites.iter().map(|r| value_of(r).0).collect();
    assert_eq!(kinds, vec!["keyword", "wildcard", "url_path", "domain"]);
}

fn cell(day: &str, hour: u64) -> SlotInput {
    SlotInput { day: day.to_string(), hour }
}

#[test]
fn schedule_from_grid_cells() {
    let cells = vec![cell("Mon", 9), cell("Xyz", 3), cell("Sun", 23), cell("Tue", 30)];
    let s = schedule_from_grid("Work", &cells, None).unwrap();
    assert!(s.enabled);
    assert_eq!(s.name, "Work schedule");
    assert_eq!(
        s.time_slots,
        vec![
            TimeSlot::new(Weekday::Mon, 9 * 3600, 10 * 3600),
            TimeSlot::new(Weekday::Sun, 23 * 3600, 0),
            TimeSlot::new(Weekday::Tue, 0, 7 * 3600),
        ]
    );
    assert!(schedule_from_grid("Work", &cells, Some(true)).is_none());
    assert!(schedule_from_grid("Work", &cells, Some(false)).is_some());
}

#[test]
fn retention_days_bounds() {
    assert_eq!(check_retention_days(0), Err("Retention period must be at least 1 day".to_string()));
    assert_eq!(check_retention_days(36501), Err("Retention period too large (max 36500 days)".to_string()));
    assert_eq!(check_retention_days(1), Ok(()));
    assert_eq!(check_retention_days(36500), Ok(()));
}
