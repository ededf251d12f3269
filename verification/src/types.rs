//! The data model: block lists with their website, application and
//! exception rules, and the weekly schedule that can restrict a list.

use vstd::prelude::*;
use crate::external::random_id;

verus! {

/// The identifier is a random (version 4) UUID of the RFC 9562 variant,
/// read as a big-endian `u128`: its version nibble (bits 76 to 79) is 4 and
/// its variant bits (62 and 63) are `10`.
pub open spec fn is_random_uuid(id: u128) -> bool {
    id & 0xF000_C000_0000_0000_0000u128 == 0x4000_8000_0000_0000_0000u128
}

/// A fresh random identifier for a rule, list or schedule.
pub fn new_id() -> (r: u128)
    ensures
        is_random_uuid(r),
{
    random_id()
}

/// A day of the week.
#[derive(Clone, Copy, Debug, PartialEq, Eq, Hash, Structural)]
pub enum Weekday {
    Mon,
    Tue,
    Wed,
    Thu,
    Fri,
    Sat,
    Sun,
}

/// The day with the given number of days from Monday (0 is Monday).
pub open spec fn weekday_of_index(i: u32) -> Weekday {
    if i == 0 {
        Weekday::Mon
    } else if i == 1 {
        Weekday::Tue
    } else if i == 2 {
        Weekday::Wed
    } else if i == 3 {
        Weekday::Thu
    } else if i == 4 {
        Weekday::Fri
    } else if i == 5 {
        Weekday::Sat
    } else {
        Weekday::Sun
    }
}

impl Weekday {
    /// The day with the given number of days from Monday; 6 and above give Sunday.
    pub fn from_days_from_monday(i: u32) -> (r: Weekday)
        ensures
            r == weekday_of_index(i),
    {
        if i == 0 {
            Weekday::Mon
        } else if i == 1 {
            Weekday::Tue
        } else if i == 2 {
            Weekday::Wed
        } else if i == 3 {
            Weekday::Thu
        } else if i == 4 {
            Weekday::Fri
        } else if i == 5 {
            Weekday::Sat
        } else {
            Weekday::Sun
        }
    }
}

/// A moment of local time as the schedule sees it: a day of the week and
/// the seconds elapsed since that day's midnight.
#[derive(Clone, Copy, Debug, PartialEq, Eq, Structural)]
pub struct LocalMoment {
    pub day: Weekday,
    pub seconds: u32,
}

impl LocalMoment {
    /// The seconds value lies within one day.
    pub open spec fn wf(self) -> bool {
        self.seconds < 86400
    }
}

/// A daily time window on one day of the week, in seconds since midnight.
/// `start <= end` covers `[start, end)`; `start > end` runs over midnight,
/// covering `[start, 24:00)` and `[00:00, end)` of that same weekday.
#[derive(Clone, Copy, Debug, PartialEq, Eq, Structural)]
pub struct TimeSlot {
    pub day: Weekday,
    pub start: u32,
    pub end: u32,
}

impl TimeSlot {
    /// A slot on `day` from `start` to `end` (seconds since midnight).
    pub fn new(day: Weekday, start: u32, end: u32) -> (r: TimeSlot)
        ensures
            r == (TimeSlot { day, start, end }),
    {
        TimeSlot { day, start, end }
    }
}

/// A weekly schedule. A list with an enabled schedule that has time slots
/// blocks only inside those slots.
pub struct Schedule {
    pub id: u128,
    pub name: String,
    pub time_slots: Vec<TimeSlot>,
    pub enabled: bool,
}

/// How a website rule recognises the sites it blocks.
#[derive(Clone, Debug)]
pub enum WebsiteMatchType {
    Domain(String),
    Wildcard(String),
    Keyword(String),
    UrlPath(String),
    EntireInternet,
}

/// One website rule of a block list.
#[derive(Clone, Debug)]
pub struct WebsiteRule {
    pub id: u128,
    pub match_type: WebsiteMatchType,
    pub enabled: bool,
}

/// How an application rule recognises the processes it blocks.
#[derive(Clone, Debug)]
pub enum AppMatchType {
    ExecutableName(String),
    ExecutablePath(String),
    WindowTitle(String),
    BundleId(String),
}

/// One application rule of a block list.
#[derive(Clone, Debug)]
pub struct AppRule {
    pub id: u128,
    pub match_type: AppMatchType,
    pub enabled: bool,
}

/// What an exception lets through despite the list's rules.
#[derive(Clone, Debug)]
pub enum ExceptionType {
    Domain(String),
    Wildcard(String),
    LocalFiles,
}

/// One exception of a block list.
#[derive(Clone, Debug)]
pub struct ExceptionRule {
    pub id: u128,
    pub exception_type: ExceptionType,
    pub enabled: bool,
}

/// A named group of rules that is switched on and off as a whole.
pub struct BlockList {
    pub id: u128,
    pub name: String,
    pub enabled: bool,
    pub websites: Vec<WebsiteRule>,
    pub applications: Vec<AppRule>,
    pub exceptions: Vec<ExceptionRule>,
    pub schedule: Option<Schedule>,
}

impl WebsiteRule {
    /// An enabled rule of the given kind.
    fn with_type(match_type: WebsiteMatchType) -> (r: WebsiteRule)
        ensures
            r.match_type == match_type,
            r.enabled,
    {
        WebsiteRule { id: new_id(), match_type, enabled: true }
    }

    /// An enabled rule blocking `domain` and its subdomains.
    pub fn domain(domain: &str) -> (r: WebsiteRule)
        ensures
            r.match_type matches WebsiteMatchType::Domain(d) && d@ == domain@,
            r.enabled,
    {
        Self::with_type(WebsiteMatchType::Domain(domain.to_owned()))
    }

    /// An enabled rule blocking every domain or URL that contains `keyword`.
    pub fn keyword(keyword: &str) -> (r: WebsiteRule)
        ensures
            r.match_type matches WebsiteMatchType::Keyword(k) && k@ == keyword@,
            r.enabled,
    {
        Self::with_type(WebsiteMatchType::Keyword(keyword.to_owned()))
    }

    /// An enabled rule blocking what matches the glob `pattern`.
    pub fn wildcard(pattern: &str) -> (r: WebsiteRule)
        ensures
            r.match_type matches WebsiteMatchType::Wildcard(p) && p@ == pattern@,
            r.enabled,
    {
        Self::with_type(WebsiteMatchType::Wildcard(pattern.to_owned()))
    }

    /// An enabled rule blocking URLs that contain `path`.
    pub fn url_path(path: &str) -> (r: WebsiteRule)
        ensures
            r.match_type matches WebsiteMatchType::UrlPath(p) && p@ == path@,
            r.enabled,
    {
        Self::with_type(WebsiteMatchType::UrlPath(path.to_owned()))
    }

    /// An enabled rule blocking every site.
    pub fn entire_internet() -> (r: WebsiteRule)
        ensures
            r.match_type is EntireInternet,
            r.enabled,
    {
        Self::with_type(WebsiteMatchType::EntireInternet)
    }
}

impl AppRule {
    /// An enabled rule of the given kind.
    fn with_type(match_type: AppMatchType) -> (r: AppRule)
        ensures
            r.match_type == match_type,
            r.enabled,
    {
        AppRule { id: new_id(), match_type, enabled: true }
    }

    /// An enabled rule blocking processes whose executable name is `name`.
    pub fn executable(name: &str) -> (r: AppRule)
        ensures
            r.match_type matches AppMatchType::ExecutableName(n) && n@ == name@,
            r.enabled,
    {
        Self::with_type(AppMatchType::ExecutableName(name.to_owned()))
    }

    /// An enabled rule blocking processes whose executable path is `path`.
    pub fn path(path: &str) -> (r: AppRule)
        ensures
            r.match_type matches AppMatchType::ExecutablePath(p) && p@ == path@,
            r.enabled,
    {
        Self::with_type(AppMatchType::ExecutablePath(path.to_owned()))
    }

    /// An enabled rule blocking processes whose window title contains `title`.
    pub fn window_title(title: &str) -> (r: AppRule)
        ensures
            r.match_type matches AppMatchType::WindowTitle(t) && t@ == title@,
            r.enabled,
    {
        Self::with_type(AppMatchType::WindowTitle(title.to_owned()))
    }
}

impl ExceptionRule {
    /// An enabled exception for `domain` and its subdomains.
    pub fn domain(domain: &str) -> (r: ExceptionRule)
        ensures
            r.exception_type matches ExceptionType::Domain(d) && d@ == domain@,
            r.enabled,
    {
        ExceptionRule {
            id: new_id(),
            exception_type: ExceptionType::Domain(domain.to_owned()),
            enabled: true,
        }
    }

    /// An enabled exception for what matches the glob `pattern`.
    pub fn wildcard(pattern: &str) -> (r: ExceptionRule)
        ensures
            r.exception_type matches ExceptionType::Wildcard(p) && p@ == pattern@,
            r.enabled,
    {
        ExceptionRule {
            id: new_id(),
            exception_type: ExceptionType::Wildcard(pattern.to_owned()),
            enabled: true,
        }
    }
}

impl BlockList {
    /// An enabled, empty, unscheduled list called `name`.
    pub fn new(name: &str) -> (r: BlockList)
        ensures
            r.name@ == name@,
            r.enabled,
            r.websites@.len() == 0,
            r.applications@.len() == 0,
            r.exceptions@.len() == 0,
            r.schedule is None,
    {
        BlockList {
            id: new_id(),
            name: name.to_owned(),
            enabled: true,
            websites: Vec::new(),
            applications: Vec::new(),
            exceptions: Vec::new(),
            schedule: None,
        }
    }
}

} // verus!
