//! Deciding whether a block list blocks a domain, a URL or a process.

use vstd::prelude::*;
use crate::external::{glob_match, glob_matches, lowercase, to_lowercase};
use crate::text::{
    chars_of, contains, contains_seq, domain_or_subdomain, find_char, first_pos, fits_u32_bytes,
    is_domain_or_subdomain, seq_eq, take_chars, utf8_len_below_u32_max,
};
use crate::schedule::{current_moment, reading_wf, some_moment};
use crate::types::{
    AppMatchType, AppRule, BlockList, ExceptionRule, ExceptionType, LocalMoment, WebsiteMatchType,
    WebsiteRule,
};

verus! {

/// The host part of a lowercased URL-path rule: everything before its first `/`.
pub open spec fn url_path_host(path: Seq<char>) -> Seq<char> {
    path.take(first_pos(path, '/') as int)
}

/// A website rule of this kind matches the (already lowercased) `domain`.
/// Rule values are compared in lowercase. A wildcard is tried only where
/// the pattern and the domain are each shorter than `u32::MAX` bytes, the
/// longest the glob matcher takes; otherwise it does not match.
pub open spec fn website_type_matches_domain(mt: WebsiteMatchType, domain: Seq<char>) -> bool {
    match mt {
        WebsiteMatchType::Domain(d) => is_domain_or_subdomain(domain, lowercase(d@)),
        WebsiteMatchType::Wildcard(p) => utf8_len_below_u32_max(lowercase(p@))
            && utf8_len_below_u32_max(domain) && glob_matches(lowercase(p@), domain),
        WebsiteMatchType::Keyword(k) => contains_seq(domain, lowercase(k@)),
        WebsiteMatchType::UrlPath(p) => is_domain_or_subdomain(
            domain,
            url_path_host(lowercase(p@)),
        ),
        WebsiteMatchType::EntireInternet => true,
    }
}

/// A website rule of this kind matches the URL `url`; the URL and the rule
/// value are compared in lowercase. A wildcard is tried only where the
/// pattern and the URL (in lowercase) are each shorter than `u32::MAX` bytes.
pub open spec fn website_type_matches_url(mt: WebsiteMatchType, url: Seq<char>) -> bool {
    let u = lowercase(url);
    match mt {
        WebsiteMatchType::Domain(d) => contains_seq(u, lowercase(d@)),
        WebsiteMatchType::Wildcard(p) => utf8_len_below_u32_max(lowercase(p@))
            && utf8_len_below_u32_max(u) && glob_matches(lowercase(p@), u),
        WebsiteMatchType::Keyword(k) => contains_seq(u, lowercase(k@)),
        WebsiteMatchType::UrlPath(p) => contains_seq(u, lowercase(p@)),
        WebsiteMatchType::EntireInternet => true,
    }
}

/// The characters of an optional string.
pub open spec fn opt_view(o: Option<&str>) -> Option<Seq<char>> {
    match o {
        Some(s) => Some(s@),
        None => None,
    }
}

/// An application rule of this kind matches the process; all comparisons
/// are made in lowercase.
pub open spec fn app_type_matches(
    mt: AppMatchType,
    name: Seq<char>,
    exe_path: Option<Seq<char>>,
    window_title: Option<Seq<char>>,
) -> bool {
    match mt {
        AppMatchType::ExecutableName(n) => lowercase(name) == lowercase(n@),
        AppMatchType::ExecutablePath(p) => match exe_path {
            Some(e) => lowercase(e) == lowercase(p@),
            None => false,
        },
        AppMatchType::WindowTitle(t) => match window_title {
            Some(w) => contains_seq(lowercase(w), lowercase(t@)),
            None => false,
        },
        AppMatchType::BundleId(_) => false,
    }
}

/// An exception of this kind lets the (already lowercased) `domain` through.
/// A wildcard is tried only where the pattern and the domain are each
/// shorter than `u32::MAX` bytes.
pub open spec fn exception_type_matches(et: ExceptionType, domain: Seq<char>) -> bool {
    match et {
        ExceptionType::Domain(d) => is_domain_or_subdomain(domain, lowercase(d@)),
        ExceptionType::Wildcard(p) => utf8_len_below_u32_max(lowercase(p@))
            && utf8_len_below_u32_max(domain) && glob_matches(lowercase(p@), domain),
        ExceptionType::LocalFiles => false,
    }
}

/// The rule is enabled and matches the (lowercased) domain.
pub open spec fn website_rule_blocks(rule: WebsiteRule, domain: Seq<char>) -> bool {
    rule.enabled && website_type_matches_domain(rule.match_type, domain)
}

/// The exception is enabled and lets the (lowercased) domain through.
pub open spec fn exception_applies(exc: ExceptionRule, domain: Seq<char>) -> bool {
    exc.enabled && exception_type_matches(exc.exception_type, domain)
}

/// The rule is enabled and matches the process.
pub open spec fn app_rule_blocks(
    rule: AppRule,
    name: Seq<char>,
    exe_path: Option<Seq<char>>,
    window_title: Option<Seq<char>>,
) -> bool {
    rule.enabled && app_type_matches(rule.match_type, name, exe_path, window_title)
}

impl WebsiteRule {
    /// Whether this rule matches `domain`, which the caller passes in lowercase.
    pub fn matches_domain(&self, domain: &str) -> (r: bool)
        ensures
            r == website_type_matches_domain(self.match_type, domain@),
    {
        match &self.match_type {
            WebsiteMatchType::Domain(d) => {
                let dl = chars_of(to_lowercase(d.as_str()).as_str());
                domain_or_subdomain(&chars_of(domain), &dl)
            },
            WebsiteMatchType::Wildcard(pattern) => {
                let pl = to_lowercase(pattern.as_str());
                fits_u32_bytes(pl.as_str()) && fits_u32_bytes(domain) && glob_match(pl.as_str(), domain)
            },
            WebsiteMatchType::Keyword(kw) => {
                let kl = chars_of(to_lowercase(kw.as_str()).as_str());
                contains(&chars_of(domain), &kl)
            },
            WebsiteMatchType::UrlPath(path) => {
                let pl = chars_of(to_lowercase(path.as_str()).as_str());
                let slash = find_char(&pl, '/');
                let host = take_chars(&pl, slash);
                domain_or_subdomain(&chars_of(domain), &host)
            },
            WebsiteMatchType::EntireInternet => true,
        }
    }

    /// Whether this rule matches the full URL `url` (compared in lowercase).
    pub fn matches_url(&self, url: &str) -> (r: bool)
        ensures
            r == website_type_matches_url(self.match_type, url@),
    {
        let url_lower = to_lowercase(url);
        let uc = chars_of(url_lower.as_str());
        match &self.match_type {
            WebsiteMatchType::Domain(d) => {
                let dl = chars_of(to_lowercase(d.as_str()).as_str());
                contains(&uc, &dl)
            },
            WebsiteMatchType::Wildcard(pattern) => {
                let pl = to_lowercase(pattern.as_str());
                fits_u32_bytes(pl.as_str()) && fits_u32_bytes(url_lower.as_str()) && glob_match(
                    pl.as_str(),
                    url_lower.as_str(),
                )
            },
            WebsiteMatchType::Keyword(kw) => {
                let kl = chars_of(to_lowercase(kw.as_str()).as_str());
                contains(&uc, &kl)
            },
            WebsiteMatchType::UrlPath(path) => {
                let pl = chars_of(to_lowercase(path.as_str()).as_str());
                contains(&uc, &pl)
            },
            WebsiteMatchType::EntireInternet => true,
        }
    }
}

impl AppRule {
    /// Whether this rule matches a running process, given its name and, when
    /// known, its executable path and window title.
    pub fn matches_process(
        &self,
        process_name: &str,
        exe_path: Option<&str>,
        window_title: Option<&str>,
    ) -> (r: bool)
        ensures
            r == app_type_matches(
                self.match_type,
                process_name@,
                opt_view(exe_path),
                opt_view(window_title),
            ),
    {
        match &self.match_type {
            AppMatchType::ExecutableName(name) => {
                let a = chars_of(to_lowercase(process_name).as_str());
                let b = chars_of(to_lowercase(name.as_str()).as_str());
                seq_eq(&a, &b)
            },
            AppMatchType::ExecutablePath(path) => match exe_path {
                Some(p) => {
                    let a = chars_of(to_lowercase(p).as_str());
                    let b = chars_of(to_lowercase(path.as_str()).as_str());
                    seq_eq(&a, &b)
                },
                None => false,
            },
            AppMatchType::WindowTitle(title) => match window_title {
                Some(t) => {
                    let a = chars_of(to_lowercase(t).as_str());
                    let b = chars_of(to_lowercase(title.as_str()).as_str());
                    contains(&a, &b)
                },
                None => false,
            },
            AppMatchType::BundleId(_) => false,
        }
    }
}

impl ExceptionRule {
    /// Whether this exception, if enabled, lets `domain` (lowercase) through.
    fn type_matches(&self, domain: &str) -> (r: bool)
        ensures
            r == exception_type_matches(self.exception_type, domain@),
    {
        match &self.exception_type {
            ExceptionType::Domain(d) => {
                let dl = chars_of(to_lowercase(d.as_str()).as_str());
                domain_or_subdomain(&chars_of(domain), &dl)
            },
            ExceptionType::Wildcard(pattern) => {
                let pl = to_lowercase(pattern.as_str());
                fits_u32_bytes(pl.as_str()) && fits_u32_bytes(domain) && glob_match(pl.as_str(), domain)
            },
            ExceptionType::LocalFiles => false,
        }
    }
}

impl BlockList {
    /// Some enabled exception lets the (lowercased) domain through.
    pub open spec fn spec_excepted(&self, domain: Seq<char>) -> bool {
        exists|i: int|
            0 <= i < self.exceptions@.len() && exception_applies(
                #[trigger] self.exceptions@[i],
                domain,
            )
    }

    /// Some enabled website rule matches the (lowercased) domain.
    pub open spec fn spec_some_rule_matches(&self, domain: Seq<char>) -> bool {
        exists|i: int|
            0 <= i < self.websites@.len() && website_rule_blocks(#[trigger] self.websites@[i], domain)
    }

    /// Whenever the list is in force, it blocks `domain`: taken in lowercase,
    /// no exception lets it through and some rule matches it.
    pub open spec fn spec_blocks_domain(&self, domain: Seq<char>) -> bool {
        let dl = lowercase(domain);
        !self.spec_excepted(dl) && self.spec_some_rule_matches(dl)
    }

    /// Whenever the list is in force, some enabled application rule matches the process.
    pub open spec fn spec_blocks_app(
        &self,
        name: Seq<char>,
        exe_path: Option<Seq<char>>,
        window_title: Option<Seq<char>>,
    ) -> bool {
        exists|i: int|
            0 <= i < self.applications@.len() && app_rule_blocks(
                #[trigger] self.applications@[i],
                name,
                exe_path,
                window_title,
            )
    }

    fn is_excepted_domain(&self, domain: &str) -> (r: bool)
        ensures
            r == self.spec_excepted(domain@),
    {
        let mut i: usize = 0;
        while i < self.exceptions.len()
            invariant
                i <= self.exceptions@.len(),
                forall|j: int|
                    0 <= j < i ==> !exception_applies(#[trigger] self.exceptions@[j], domain@),
            decreases self.exceptions@.len() - i,
        {
            let exc = &self.exceptions[i];
            if exc.enabled && exc.type_matches(domain) {
                return true;
            }
            i = i + 1;
        }
        false
    }

    fn some_rule_matches(&self, domain: &str) -> (r: bool)
        ensures
            r == self.spec_some_rule_matches(domain@),
    {
        let mut i: usize = 0;
        while i < self.websites.len()
            invariant
                i <= self.websites@.len(),
                forall|j: int|
                    0 <= j < i ==> !website_rule_blocks(#[trigger] self.websites@[j], domain@),
            decreases self.websites@.len() - i,
        {
            let rule = &self.websites[i];
            if rule.enabled && rule.matches_domain(domain) {
                return true;
            }
            i = i + 1;
        }
        false
    }

    /// Whether the list, when in force, blocks `domain`.
    fn blocks_domain(&self, domain: &str) -> (r: bool)
        ensures
            r == self.spec_blocks_domain(domain@),
    {
        let domain_lower = to_lowercase(domain);
        if self.is_excepted_domain(domain_lower.as_str()) {
            return false;
        }
        self.some_rule_matches(domain_lower.as_str())
    }

    /// Whether the list blocks `domain` at `now`.
    pub fn should_block_domain_at(&self, domain: &str, now: LocalMoment) -> (r: bool)
        ensures
            r == (self.spec_active_at(now) && self.spec_blocks_domain(domain@)),
    {
        if !self.is_effectively_active_at(now) {
            return false;
        }
        self.blocks_domain(domain)
    }

    /// Whether the list blocks `domain` now, by the local clock. Where the
    /// clock cannot be read, only a list whose schedule places no
    /// restriction blocks; a list in force at no moment never blocks.
    pub fn should_block_domain(&self, domain: &str) -> (r: bool)
        ensures
            exists|now: Option<LocalMoment>|
                reading_wf(now) && r == (self.spec_active_when(now) && self.spec_blocks_domain(
                    domain@,
                )),
            r ==> self.enabled && self.spec_blocks_domain(domain@),
            self.unscheduled() ==> r == (self.enabled && self.spec_blocks_domain(domain@)),
            self.never_active() ==> !r,
    {
        proof {
            assert(some_moment().wf());
            assert(self.enabled && self.unscheduled() ==> self.spec_active_at(some_moment()));
        }
        match current_moment() {
            Some(now) => self.should_block_domain_at(domain, now),
            None => self.enabled && self.has_no_restriction() && self.blocks_domain(domain),
        }
    }

    /// Whether the list, when in force, blocks the process.
    fn blocks_app(
        &self,
        process_name: &str,
        exe_path: Option<&str>,
        window_title: Option<&str>,
    ) -> (r: bool)
        ensures
            r == self.spec_blocks_app(process_name@, opt_view(exe_path), opt_view(window_title)),
    {
        let mut i: usize = 0;
        while i < self.applications.len()
            invariant
                i <= self.applications@.len(),
                forall|j: int|
                    0 <= j < i ==> !app_rule_blocks(
                        #[trigger] self.applications@[j],
                        process_name@,
                        opt_view(exe_path),
                        opt_view(window_title),
                    ),
            decreases self.applications@.len() - i,
        {
            let rule = &self.applications[i];
            if rule.enabled && rule.matches_process(process_name, exe_path, window_title) {
                return true;
            }
            i = i + 1;
        }
        false
    }

    /// Whether the list blocks the process at `now`.
    pub fn should_block_app_at(
        &self,
        process_name: &str,
        exe_path: Option<&str>,
        window_title: Option<&str>,
        now: LocalMoment,
    ) -> (r: bool)
        ensures
            r == (self.spec_active_at(now) && self.spec_blocks_app(
                process_name@,
                opt_view(exe_path),
                opt_view(window_title),
            )),
    {
        if !self.is_effectively_active_at(now) {
            return false;
        }
        self.blocks_app(process_name, exe_path, window_title)
    }

    /// Whether the list blocks the process now, by the local clock. A list
    /// whose schedule is set but not active blocks no application; where the
    /// clock cannot be read, only a list whose schedule places no
    /// restriction blocks; a list in force at no moment never blocks.
    pub fn should_block_app(
        &self,
        process_name: &str,
        exe_path: Option<&str>,
        window_title: Option<&str>,
    ) -> (r: bool)
        ensures
            exists|now: Option<LocalMoment>|
                reading_wf(now) && r == (self.spec_active_when(now) && self.spec_blocks_app(
                    process_name@,
                    opt_view(exe_path),
                    opt_view(window_title),
                )),
            r ==> self.enabled && self.spec_blocks_app(
                process_name@,
                opt_view(exe_path),
                opt_view(window_title),
            ),
            self.unscheduled() ==> r == (self.enabled && self.spec_blocks_app(
                process_name@,
                opt_view(exe_path),
                opt_view(window_title),
            )),
            self.never_active() ==> !r,
    {
        proof {
            assert(some_moment().wf());
            assert(self.enabled && self.unscheduled() ==> self.spec_active_at(some_moment()));
        }
        match current_moment() {
            Some(now) => self.should_block_app_at(process_name, exe_path, window_title, now),
            None => self.enabled && self.has_no_restriction() && self.blocks_app(
                process_name,
                exe_path,
                window_title,
            ),
        }
    }
}

} // verus!
