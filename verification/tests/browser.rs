use focuser::browser::{
    browser_exe_file, browser_launch_cmd, build_extension_modal_js, extension_store_url,
    identify_browser, known_browsers, BrowserType,
};

#[test]
fn identify_browser_by_process_name_ignoring_ascii_case() {
    assert_eq!(identify_browser("Chrome.EXE").unwrap().browser_type, BrowserType::Chrome);
    assert_eq!(identify_browser("firefox").unwrap().browser_type, BrowserType::Firefox);
    assert_eq!(identify_browser("msedge.exe").unwrap().browser_type, BrowserType::Edge);
    assert_eq!(identify_browser("brave.exe").unwrap().browser_type, BrowserType::Brave);
    assert_eq!(identify_browser("opera").unwrap().browser_type, BrowserType::Opera);
    assert!(identify_browser("notepad.exe").is_none());
    assert!(identify_browser("chrome.exe.bak").is_none());
}

#[test]
fn known_browsers_in_fixed_order_with_display_names() {
    let all = known_browsers();
    assert_eq!(all.len(), 5);
    assert_eq!(all[0].browser_type, BrowserType::Chrome);
    assert_eq!(all[0].display_name, "Google Chrome");
    assert_eq!(all[1].display_name, "Mozilla Firefox");
    assert_eq!(all[4].exe_names[0], "opera.exe");
}

#[test]
fn extension_store_per_browser() {
    assert_eq!(
        extension_store_url("Mozilla Firefox"),
        (
            "https://addons.mozilla.org/en-US/firefox/addon/focuser-website-blocker/",
            "firefox"
        )
    );
    assert_eq!(
        extension_store_url("Brave Browser"),
        (
            "https://chromewebstore.google.com/detail/jpnhbpbcmagoonmaleppldmcnaibkbmj",
            "chrome"
        )
    );
}

#[test]
fn launch_commands_per_browser() {
    assert_eq!(browser_launch_cmd("Mozilla Firefox"), "firefox");
    assert_eq!(browser_launch_cmd("Microsoft Edge"), "msedge");
    assert_eq!(browser_launch_cmd("Brave Browser"), "brave");
    assert_eq!(browser_launch_cmd("Opera"), "opera");
    assert_eq!(browser_launch_cmd("your browser"), "chrome");
    assert_eq!(browser_exe_file("msedge"), Some("msedge.exe"));
    assert_eq!(browser_exe_file("safari"), None);
}

#[test]
fn modal_script_names_browser_store_and_command() {
    let js = build_extension_modal_js("Mozilla Firefox");
    assert!(js.starts_with("(function() {\n  var old = document.getElementById('focuser-ext-modal-overlay');"));
    assert!(js.ends_with("installBtn.focus();\n})();"));
    assert!(js.contains("closed <strong style=\"color:#f0f0f3\">Mozilla Firefox</strong>"));
    assert!(js.contains("from the <strong style=\"color:#f0f0f3\">Firefox Add-ons</strong> to continue using Mozilla Firefox while"));
    assert!(js.contains("Install Extension for Mozilla Firefox';"));
    assert!(js.contains("var cmd = 'firefox';\n    var url = 'https://addons.mozilla.org/en-US/firefox/addon/focuser-website-blocker/';"));
    assert!(js.contains("@keyframes focuserFadeIn {from{opacity:0}to{opacity:1}}"));

    let js = build_extension_modal_js("Google Chrome");
    assert!(js.contains("Chrome Web Store"));
    assert!(js.contains("var cmd = 'chrome';"));
}
