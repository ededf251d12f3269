use focuser::hosts::{replace_section, HOSTS_BEGIN, HOSTS_END};

fn section(domains: &[&str]) -> String {
    let mut s = String::new();
    s.push_str(HOSTS_BEGIN);
    s.push('\n');
    for d in domains {
        s.push_str(&format!("127.0.0.1 {d}\n::1 {d}\n"));
    }
    s.push_str(HOSTS_END);
    s.push('\n');
    s
}

fn strings(v: &[&str]) -> Vec<String> {
    v.iter().map(|s| s.to_string()).collect()
}

#[test]
fn replace_section_appends_entries_after_user_lines() {
    let content = "127.0.0.1 localhost\n";
    let out = replace_section(content, &strings(&["reddit.com", "x.com"]));
    let expected = format!("127.0.0.1 localhost\n{}", section(&["reddit.com", "x.com"]));
    assert_eq!(out, expected);
}

#[test]
fn replace_section_replaces_old_section() {
    let content = format!("a\n{}b\n", section(&["old.com"]));
    let out = replace_section(&content, &strings(&["new.com"]));
    assert_eq!(out, format!("a\nb\n{}", section(&["new.com"])));
}

#[test]
fn replace_section_with_no_domains_removes_section() {
    let content = format!("a\n{}b\n", section(&["old.com"]));
    assert_eq!(replace_section(&content, &[]), "a\nb\n");
}

#[test]
fn replace_section_adds_missing_final_newline() {
    assert_eq!(replace_section("a", &[]), "a\n");
    assert_eq!(
        replace_section("a", &strings(&["d.com"])),
        format!("a\n{}", section(&["d.com"]))
    );
}

#[test]
fn replace_section_on_empty_file_starts_with_blank_line() {
    assert_eq!(
        replace_section("", &strings(&["d.com"])),
        format!("\n{}", section(&["d.com"]))
    );
    assert_eq!(replace_section("", &[]), "");
}

#[test]
fn replace_section_normalises_crlf_and_trims_markers() {
    let content = format!("a\r\n   {HOSTS_BEGIN}  \r\nx\n\t{HOSTS_END}\nb\r\n");
    assert_eq!(replace_section(&content, &[]), "a\nb\n");
}

#[test]
fn replace_section_unterminated_section_drops_the_rest() {
    let content = format!("a\n{HOSTS_BEGIN}\nx\ny\n");
    assert_eq!(replace_section(&content, &[]), "a\n");
}

#[test]
fn replace_section_is_idempotent_on_example() {
    let content = "# hosts\r\n127.0.0.1 localhost\n";
    let d = strings(&["reddit.com"]);
    let once = replace_section(content, &d);
    let twice = replace_section(&once, &d);
    assert_eq!(once, twice);
}

#[test]
fn remove_after_apply_restores_user_content() {
    let content = "# hosts\n127.0.0.1 localhost\n";
    let applied = replace_section(content, &strings(&["a.com", "b.com"]));
    assert_eq!(replace_section(&applied, &[]), content);
}

#[test]
fn removing_from_file_without_section_keeps_it() {
    let content = "127.0.0.1 localhost\n::1 localhost\n# comment\n";
    assert_eq!(replace_section(content, &[]), content);
}

#[test]
fn hosts_file_location_per_platform() {
    assert_eq!(focuser::hosts::hosts_path(true), r"C:\Windows\System32\drivers\etc\hosts");
    assert_eq!(focuser::hosts::hosts_path(false), "/etc/hosts");
}

#[test]
fn removing_restores_after_a_domain_with_a_line_break() {
    let content = "127.0.0.1 localhost\n# user line\n";
    let domains = strings(&["a.com\nb.com", "c.com"]);
    let applied = replace_section(content, &domains);
    assert_eq!(replace_section(&applied, &[]), replace_section(content, &[]));
    assert_eq!(replace_section(&applied, &domains), applied);
}
