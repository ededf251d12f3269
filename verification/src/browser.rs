//! The browsers Focuser knows, how a process is recognised as one of them,
//! and the texts shown when browser enforcement closes a browser.

use vstd::prelude::*;
use crate::text::{ascii_lower, chars_of, seq_eq, to_ascii_lower};

verus! {

/// A browser family that the extension supports.
#[derive(Clone, Copy, Debug, PartialEq, Eq, Hash, Structural)]
pub enum BrowserType {
    Chrome,
    Firefox,
    Edge,
    Brave,
    Opera,
}

/// The number of browser families.
pub const BROWSER_COUNT: usize = 5;

/// The position of a browser family in the fixed order Chrome, Firefox,
/// Edge, Brave, Opera.
pub open spec fn spec_browser_index(bt: BrowserType) -> int {
    match bt {
        BrowserType::Chrome => 0,
        BrowserType::Firefox => 1,
        BrowserType::Edge => 2,
        BrowserType::Brave => 3,
        BrowserType::Opera => 4,
    }
}

/// The browser family at a position of the fixed order.
pub open spec fn spec_browser_at(i: int) -> BrowserType {
    if i == 0 {
        BrowserType::Chrome
    } else if i == 1 {
        BrowserType::Firefox
    } else if i == 2 {
        BrowserType::Edge
    } else if i == 3 {
        BrowserType::Brave
    } else {
        BrowserType::Opera
    }
}

/// The name shown to the user for a browser family.
pub open spec fn spec_display_name(bt: BrowserType) -> Seq<char> {
    match bt {
        BrowserType::Chrome => "Google Chrome"@,
        BrowserType::Firefox => "Mozilla Firefox"@,
        BrowserType::Edge => "Microsoft Edge"@,
        BrowserType::Brave => "Brave Browser"@,
        BrowserType::Opera => "Opera"@,
    }
}

/// The process names (in lowercase) under which a browser family runs on
/// Windows, Linux and macOS; the Windows name comes first.
pub open spec fn spec_exe_names(bt: BrowserType) -> Seq<Seq<char>> {
    match bt {
        BrowserType::Chrome => seq!["chrome.exe"@, "chrome"@, "google-chrome"@, "google chrome"@],
        BrowserType::Firefox => seq!["firefox.exe"@, "firefox"@],
        BrowserType::Edge => seq!["msedge.exe"@, "msedge"@, "microsoft edge"@],
        BrowserType::Brave => seq!["brave.exe"@, "brave"@, "brave browser"@],
        BrowserType::Opera => seq!["opera.exe"@, "opera"@],
    }
}

/// The views of a list of string slices.
pub open spec fn str_views(v: Seq<&'static str>) -> Seq<Seq<char>> {
    v.map_values(|s: &'static str| s@)
}

/// The browser family of a process, found by comparing its name, in ASCII
/// lowercase, with each family's process names in the fixed order.
pub open spec fn browser_of(name: Seq<char>) -> Option<BrowserType> {
    let n = ascii_lower(name);
    if spec_exe_names(BrowserType::Chrome).contains(n) {
        Some(BrowserType::Chrome)
    } else if spec_exe_names(BrowserType::Firefox).contains(n) {
        Some(BrowserType::Firefox)
    } else if spec_exe_names(BrowserType::Edge).contains(n) {
        Some(BrowserType::Edge)
    } else if spec_exe_names(BrowserType::Brave).contains(n) {
        Some(BrowserType::Brave)
    } else if spec_exe_names(BrowserType::Opera).contains(n) {
        Some(BrowserType::Opera)
    } else {
        None
    }
}

/// A browser family with its display name and process names.
pub struct BrowserInfo {
    pub browser_type: BrowserType,
    pub display_name: &'static str,
    pub exe_names: Vec<&'static str>,
}

impl BrowserInfo {
    /// The record describes its family as `spec_display_name` and `spec_exe_names` do.
    pub open spec fn describes(&self, bt: BrowserType) -> bool {
        &&& self.browser_type == bt
        &&& self.display_name@ == spec_display_name(bt)
        &&& str_views(self.exe_names@) == spec_exe_names(bt)
    }
}

impl BrowserType {
    /// The position of this family in the fixed order.
    pub fn index(&self) -> (r: usize)
        ensures
            r == spec_browser_index(*self),
            r < BROWSER_COUNT,
    {
        match self {
            BrowserType::Chrome => 0,
            BrowserType::Firefox => 1,
            BrowserType::Edge => 2,
            BrowserType::Brave => 3,
            BrowserType::Opera => 4,
        }
    }

    /// The family at position `i` of the fixed order.
    pub fn from_index(i: usize) -> (r: BrowserType)
        requires
            i < BROWSER_COUNT,
        ensures
            r == spec_browser_at(i as int),
            spec_browser_index(r) == i,
    {
        if i == 0 {
            BrowserType::Chrome
        } else if i == 1 {
            BrowserType::Firefox
        } else if i == 2 {
            BrowserType::Edge
        } else if i == 3 {
            BrowserType::Brave
        } else {
            BrowserType::Opera
        }
    }

    /// The name shown to the user.
    pub fn display_name(&self) -> (r: &'static str)
        ensures
            r@ == spec_display_name(*self),
    {
        match self {
            BrowserType::Chrome => "Google Chrome",
            BrowserType::Firefox => "Mozilla Firefox",
            BrowserType::Edge => "Microsoft Edge",
            BrowserType::Brave => "Brave Browser",
            BrowserType::Opera => "Opera",
        }
    }

    /// The process names of this family, Windows name first.
    pub fn exe_names(&self) -> (r: Vec<&'static str>)
        ensures
            str_views(r@) == spec_exe_names(*self),
    {
        let r = match self {
            BrowserType::Chrome => vec!["chrome.exe", "chrome", "google-chrome", "google chrome"],
            BrowserType::Firefox => vec!["firefox.exe", "firefox"],
            BrowserType::Edge => vec!["msedge.exe", "msedge", "microsoft edge"],
            BrowserType::Brave => vec!["brave.exe", "brave", "brave browser"],
            BrowserType::Opera => vec!["opera.exe", "opera"],
        };
        assert(str_views(r@) =~= spec_exe_names(*self));
        r
    }

    /// The full description of this family.
    pub fn info(&self) -> (r: BrowserInfo)
        ensures
            r.describes(*self),
    {
        BrowserInfo { browser_type: *self, display_name: self.display_name(), exe_names: self.exe_names() }
    }
}

/// Every known browser family, in the fixed order.
pub fn known_browsers() -> (r: Vec<BrowserInfo>)
    ensures
        r@.len() == BROWSER_COUNT,
        forall|i: int| 0 <= i < BROWSER_COUNT ==> #[trigger] r@[i].describes(spec_browser_at(i)),
{
    let mut r: Vec<BrowserInfo> = Vec::new();
    let mut i: usize = 0;
    while i < BROWSER_COUNT
        invariant
            i <= BROWSER_COUNT,
            r@.len() == i,
            forall|j: int| 0 <= j < i ==> #[trigger] r@[j].describes(spec_browser_at(j)),
        decreases BROWSER_COUNT - i,
    {
        r.push(BrowserType::from_index(i).info());
        i = i + 1;
    }
    r
}

/// Whether `name` is one of `names`.
fn name_listed(names: &Vec<&'static str>, name: &Vec<char>) -> (r: bool)
    ensures
        r == str_views(names@).contains(name@),
{
    let mut i: usize = 0;
    while i < names.len()
        invariant
            i <= names@.len(),
            forall|j: int| 0 <= j < i ==> names@[j]@ != name@,
        decreases names@.len() - i,
    {
        if seq_eq(&chars_of(names[i]), name) {
            assert(str_views(names@)[i as int] == name@);
            return true;
        }
        i = i + 1;
    }
    assert(!str_views(names@).contains(name@)) by {
        if str_views(names@).contains(name@) {
            let k = choose|k: int| 0 <= k < str_views(names@).len() && str_views(names@)[k] == name@;
            assert(names@[k]@ == name@);
        }
    }
    false
}

/// The browser family of a process with the given name, if it is one.
pub fn identify_browser(process_name: &str) -> (r: Option<BrowserInfo>)
    ensures
        match r {
            Some(info) => browser_of(process_name@) == Some(info.browser_type) && info.describes(
                info.browser_type,
            ),
            None => browser_of(process_name@) is None,
        },
{
    let n = to_ascii_lower(&chars_of(process_name));
    let mut i: usize = 0;
    while i < BROWSER_COUNT
        invariant
            i <= BROWSER_COUNT,
            n@ == ascii_lower(process_name@),
            forall|j: int| 0 <= j < i ==> !spec_exe_names(#[trigger] spec_browser_at(j)).contains(n@),
        decreases BROWSER_COUNT - i,
    {
        let bt = BrowserType::from_index(i);
        if name_listed(&bt.exe_names(), &n) {
            proof {
                if i >= 1 {
                    assert(!spec_exe_names(spec_browser_at(0)).contains(n@));
                }
                if i >= 2 {
                    assert(!spec_exe_names(spec_browser_at(1)).contains(n@));
                }
                if i >= 3 {
                    assert(!spec_exe_names(spec_browser_at(2)).contains(n@));
                }
                if i >= 4 {
                    assert(!spec_exe_names(spec_browser_at(3)).contains(n@));
                }
            }
            return Some(bt.info());
        }
        i = i + 1;
    }
    assert(!spec_exe_names(spec_browser_at(0)).contains(n@));
    assert(!spec_exe_names(spec_browser_at(1)).contains(n@));
    assert(!spec_exe_names(spec_browser_at(2)).contains(n@));
    assert(!spec_exe_names(spec_browser_at(3)).contains(n@));
    assert(!spec_exe_names(spec_browser_at(4)).contains(n@));
    None
}

/// The extension store for a browser display name: Firefox Add-ons for
/// "Mozilla Firefox", the Chrome Web Store for every other name. The second
/// component names the store kind.
pub open spec fn spec_extension_store_url(browser_name: Seq<char>) -> (Seq<char>, Seq<char>) {
    if browser_name == "Mozilla Firefox"@ {
        (
            "https://addons.mozilla.org/en-US/firefox/addon/focuser-website-blocker/"@,
            "firefox"@,
        )
    } else {
        ("https://chromewebstore.google.com/detail/jpnhbpbcmagoonmaleppldmcnaibkbmj"@, "chrome"@)
    }
}

/// The extension store URL and store kind for a browser display name.
pub fn extension_store_url(browser_name: &str) -> (r: (&'static str, &'static str))
    ensures
        (r.0@, r.1@) == spec_extension_store_url(browser_name@),
{
    if seq_eq(&chars_of(browser_name), &chars_of("Mozilla Firefox")) {
        (
            "https://addons.mozilla.org/en-US/firefox/addon/focuser-website-blocker/",
            "firefox",
        )
    } else {
        ("https://chromewebstore.google.com/detail/jpnhbpbcmagoonmaleppldmcnaibkbmj", "chrome")
    }
}

/// The command that launches a browser, by its display name; "chrome" for
/// any name not listed.
pub open spec fn spec_browser_launch_cmd(browser_name: Seq<char>) -> Seq<char> {
    if browser_name == "Mozilla Firefox"@ {
        "firefox"@
    } else if browser_name == "Microsoft Edge"@ {
        "msedge"@
    } else if browser_name == "Brave Browser"@ {
        "brave"@
    } else if browser_name == "Opera"@ {
        "opera"@
    } else {
        "chrome"@
    }
}

/// The command that launches a browser, by its display name.
pub fn browser_launch_cmd(browser_name: &str) -> (r: &'static str)
    ensures
        r@ == spec_browser_launch_cmd(browser_name@),
{
    let n = chars_of(browser_name);
    if seq_eq(&n, &chars_of("Mozilla Firefox")) {
        "firefox"
    } else if seq_eq(&n, &chars_of("Microsoft Edge")) {
        "msedge"
    } else if seq_eq(&n, &chars_of("Brave Browser")) {
        "brave"
    } else if seq_eq(&n, &chars_of("Opera")) {
        "opera"
    } else {
        "chrome"
    }
}

/// The executable file that a launch command names, for the commands
/// that are looked up among installed applications.
pub open spec fn spec_browser_exe_file(cmd: Seq<char>) -> Option<Seq<char>> {
    if cmd == "chrome"@ {
        Some("chrome.exe"@)
    } else if cmd == "firefox"@ {
        Some("firefox.exe"@)
    } else if cmd == "msedge"@ {
        Some("msedge.exe"@)
    } else if cmd == "brave"@ {
        Some("brave.exe"@)
    } else if cmd == "opera"@ {
        Some("opera.exe"@)
    } else {
        None
    }
}

/// The executable file that a launch command names, if it is a known browser.
pub fn browser_exe_file(cmd: &str) -> (r: Option<&'static str>)
    ensures
        match r {
            Some(f) => spec_browser_exe_file(cmd@) == Some(f@),
            None => spec_browser_exe_file(cmd@) is None,
        },
{
    let n = chars_of(cmd);
    if seq_eq(&n, &chars_of("chrome")) {
        Some("chrome.exe")
    } else if seq_eq(&n, &chars_of("firefox")) {
        Some("firefox.exe")
    } else if seq_eq(&n, &chars_of("msedge")) {
        Some("msedge.exe")
    } else if seq_eq(&n, &chars_of("brave")) {
        Some("brave.exe")
    } else if seq_eq(&n, &chars_of("opera")) {
        Some("opera.exe")
    } else {
        None
    }
}

/// The label of a store kind as shown to the user.
pub open spec fn spec_store_label(store_type: Seq<char>) -> Seq<char> {
    if store_type == "firefox"@ {
        "Firefox Add-ons"@
    } else {
        "Chrome Web Store"@
    }
}

/// Part 0 of the dialog script template.
pub const MODAL_JS_0: &'static str = r##"(function() {
  var old = document.getElementById('focuser-ext-modal-overlay');
  if (old) old.remove();

  var overlay = document.createElement('div');
  overlay.id = 'focuser-ext-modal-overlay';
  overlay.style.cssText = 'position:fixed;top:0;left:0;width:100%;height:100%;background:rgba(0,0,0,0.6);backdrop-filter:blur(4px);z-index:99999;display:flex;align-items:center;justify-content:center;animation:focuserFadeIn 0.2s ease';

  var modal = document.createElement('div');
  modal.style.cssText = 'background:#1e1e24;border:1px solid rgba(255,255,255,0.1);border-radius:12px;padding:32px;max-width:480px;width:90%;box-shadow:0 8px 32px rgba(0,0,0,0.6);font-family:Inter,-apple-system,BlinkMacSystemFont,Segoe UI,sans-serif;color:#f0f0f3;animation:focuserSlideIn 0.25s ease';

  var header = document.createElement('div');
  header.style.cssText = 'display:flex;align-items:center;gap:12px;margin-bottom:20px';

  var icon = document.createElement('div');
  icon.style.cssText = 'width:44px;height:44px;border-radius:10px;background:rgba(248,113,113,0.15);display:flex;align-items:center;justify-content:center;flex-shrink:0';
  icon.innerHTML = '<svg width="24" height="24" viewBox="0 0 24 24" fill="none" stroke="#f87171" stroke-width="2" stroke-linecap="round" stroke-linejoin="round"><circle cx="12" cy="12" r="10"/><line x1="12" y1="8" x2="12" y2="12"/><line x1="12" y1="16" x2="12.01" y2="16"/></svg>';

  var title = document.createElement('div');
  title.style.cssText = 'font-size:18px;font-weight:600;color:#f0f0f3';
  title.textContent = 'Extension Required';

  header.appendChild(icon);
  header.appendChild(title);

  var msg = document.createElement('p');
  msg.style.cssText = 'font-size:14px;line-height:1.6;color:#b0b0bc;margin-bottom:24px';
  msg.innerHTML = 'Browser enforcement closed <strong style="color:#f0f0f3">"##;

/// Part 1 of the dialog script template.
pub const MODAL_JS_1: &'static str = r##"</strong> because the Focuser browser extension is not connected.<br><br>Install the extension from the <strong style="color:#f0f0f3">"##;

/// Part 2 of the dialog script template.
pub const MODAL_JS_2: &'static str = r##"</strong> to continue using "##;

/// Part 3 of the dialog script template.
pub const MODAL_JS_3: &'static str = r##" while blocks are active.';

  var btnRow = document.createElement('div');
  btnRow.style.cssText = 'display:flex;gap:12px;flex-direction:column';

  var installBtn = document.createElement('button');
  installBtn.style.cssText = 'width:100%;padding:12px 20px;background:#8b5cf6;color:#fff;border:none;border-radius:8px;font-size:14px;font-weight:600;cursor:pointer;transition:all 0.15s ease;font-family:inherit;display:flex;align-items:center;justify-content:center;gap:8px';
  installBtn.innerHTML = '<svg width="18" height="18" viewBox="0 0 24 24" fill="none" stroke="currentColor" stroke-width="2" stroke-linecap="round" stroke-linejoin="round"><path d="M21 15v4a2 2 0 0 1-2 2H5a2 2 0 0 1-2-2v-4"/><polyline points="7 10 12 15 17 10"/><line x1="12" y1="15" x2="12" y2="3"/></svg> Install Extension for "##;

/// Part 4 of the dialog script template.
pub const MODAL_JS_4: &'static str = r##"';
  installBtn.onmouseenter = function() { installBtn.style.background = '#9d74fa'; installBtn.style.transform = 'translateY(-1px)'; };
  installBtn.onmouseleave = function() { installBtn.style.background = '#8b5cf6'; installBtn.style.transform = 'translateY(0)'; };
  installBtn.onclick = function() {
    var cmd = '"##;

/// Part 5 of the dialog script template.
pub const MODAL_JS_5: &'static str = r##"';
    var url = '"##;

/// Part 6 of the dialog script template.
pub const MODAL_JS_6: &'static str = r##"';
    try {
      window.__TAURI__.core.invoke('open_browser_url', { browser: cmd, url: url })
        .catch(function(err) { console.error('Focuser: invoke failed:', err); });
    } catch(e) { console.error('Focuser: catch:', e); }
    overlay.remove();
  };

  var dismissBtn = document.createElement('button');
  dismissBtn.textContent = 'Dismiss';
  dismissBtn.style.cssText = 'width:100%;padding:10px 20px;background:transparent;color:#6e6e7a;border:1px solid rgba(255,255,255,0.08);border-radius:8px;font-size:13px;font-weight:500;cursor:pointer;transition:all 0.15s ease;font-family:inherit';
  dismissBtn.onmouseenter = function() { dismissBtn.style.color = '#b0b0bc'; dismissBtn.style.borderColor = 'rgba(255,255,255,0.15)'; };
  dismissBtn.onmouseleave = function() { dismissBtn.style.color = '#6e6e7a'; dismissBtn.style.borderColor = 'rgba(255,255,255,0.08)'; };
  dismissBtn.onclick = function() { overlay.remove(); };

  btnRow.appendChild(installBtn);
  btnRow.appendChild(dismissBtn);

  modal.appendChild(header);
  modal.appendChild(msg);
  modal.appendChild(btnRow);
  overlay.appendChild(modal);

  var style = document.createElement('style');
  style.textContent = '@keyframes focuserFadeIn {from{opacity:0}to{opacity:1}} @keyframes focuserSlideIn {from{opacity:0;transform:scale(0.95) translateY(10px)}to{opacity:1;transform:scale(1) translateY(0)}}';
  document.head.appendChild(style);

  overlay.onclick = function(e) { if (e.target === overlay) overlay.remove(); };
  var escHandler = function(e) { if (e.key === 'Escape') { overlay.remove(); document.removeEventListener('keydown', escHandler); } };
  document.addEventListener('keydown', escHandler);

  document.body.appendChild(overlay);
  installBtn.focus();
})();"##;

/// The script that shows the in-app "Extension Required" dialog, with the
/// closed browser's name, the store label, the launch command and the store
/// URL filled into their places.
pub open spec fn spec_modal_js(
    browser_name: Seq<char>,
    store_label: Seq<char>,
    browser_exe: Seq<char>,
    store_url: Seq<char>,
) -> Seq<char> {
    MODAL_JS_0@ + browser_name + MODAL_JS_1@ + store_label + MODAL_JS_2@ + browser_name + MODAL_JS_3@
        + browser_name + MODAL_JS_4@ + browser_exe + MODAL_JS_5@ + store_url + MODAL_JS_6@
}

/// The script for the dialog shown after enforcement closed `browser_name`.
pub fn build_extension_modal_js(browser_name: &str) -> (r: String)
    ensures
        r@ == spec_modal_js(
            browser_name@,
            spec_store_label(spec_extension_store_url(browser_name@).1),
            spec_browser_launch_cmd(browser_name@),
            spec_extension_store_url(browser_name@).0,
        ),
{
    let (store_url, store_type) = extension_store_url(browser_name);
    let browser_exe = browser_launch_cmd(browser_name);
    let store_label = if seq_eq(&chars_of(store_type), &chars_of("firefox")) {
        "Firefox Add-ons"
    } else {
        "Chrome Web Store"
    };
    let mut js = String::from_str(MODAL_JS_0);
    js.append(browser_name);
    js.append(MODAL_JS_1);
    js.append(store_label);
    js.append(MODAL_JS_2);
    js.append(browser_name);
    js.append(MODAL_JS_3);
    js.append(browser_name);
    js.append(MODAL_JS_4);
    js.append(browser_exe);
    js.append(MODAL_JS_5);
    js.append(store_url);
    js.append(MODAL_JS_6);
    js
}

} // verus!
