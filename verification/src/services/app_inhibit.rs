//! Applications that inhibit: which windows or processes count, and when the count is reported.

use vstd::prelude::*;

use super::json::{json_text, json_view, parse_json, Json, JsonModel};
use super::sets::{add_once, distinct_count};
use crate::config::pattern::{
    clone_patterns, pattern_views, patterns_same, regex_found, regex_match, shown_alike, Pattern,
    PatternModel,
};
use crate::events::Event;
use crate::text::numbers::all_digits;
use crate::text::chars::{digit, is_digit};
use crate::text::split::{fields_of, lines, lines_of, split_char, split_whitespace, words_of};
use crate::text::strings::{
    chars_of, contains, eq_ignore_case, has_part, has_prefix, has_suffix, join, joined, lowercase,
    opt_view, same_ignoring_case, strip_prefix, strip_suffix, stripped_end, stripped_start,
    to_lowercase, trim, trim_char, trimmed, views,
};
use crate::time::{add_ms, later};

verus! {

/// The applications that inhibit. The epoch tells a new set of rules from an old one with the same
/// applications.
#[derive(Debug)]
pub struct AppRules {
    pub epoch: u64,
    pub apps: Vec<Pattern>,
}

// ---------------------------------------------------------------------------------------------
// Where applications are looked for
// ---------------------------------------------------------------------------------------------

/// Where applications are looked for.
#[derive(Debug, Clone, Copy, PartialEq, Eq, Structural)]
pub enum AppBackend {
    Hyprland,
    Niri,
    Proc,
}

/// The desktop's name has `part` in it, whatever the case.
pub open spec fn desktop_has(desktop: Option<Seq<char>>, part: Seq<char>) -> bool {
    desktop matches Some(d) && has_part(lowercase(d), part)
}

/// Where applications are looked for, by what the environment says of the compositor.
pub open spec fn app_backend(
    hyprland_signature: bool,
    desktop: Option<Seq<char>>,
    niri_socket: bool,
) -> AppBackend {
    if hyprland_signature || desktop_has(desktop, "hyprland"@) {
        AppBackend::Hyprland
    } else if desktop_has(desktop, "niri"@) || niri_socket {
        AppBackend::Niri
    } else {
        AppBackend::Proc
    }
}

/// Whether the desktop's name has `part` in it, whatever the case.
pub fn desktop_contains(desktop: &Option<String>, part: &str) -> (r: bool)
    ensures
        r == desktop_has(opt_view(*desktop), part@),
{
    match desktop {
        Some(d) => contains(to_lowercase(d.as_str()).as_str(), part),
        None => false,
    }
}

/// Where applications are looked for, by what the environment says of the compositor.
pub fn detect_app_backend(
    hyprland_signature: bool,
    desktop: &Option<String>,
    niri_socket: bool,
) -> (r: AppBackend)
    ensures
        r == app_backend(hyprland_signature, opt_view(*desktop), niri_socket),
{
    if hyprland_signature || desktop_contains(desktop, "hyprland") {
        AppBackend::Hyprland
    } else if desktop_contains(desktop, "niri") || niri_socket {
        AppBackend::Niri
    } else {
        AppBackend::Proc
    }
}

// ---------------------------------------------------------------------------------------------
// Matching
// ---------------------------------------------------------------------------------------------

impl PatternModel {
    /// The pattern means the application. A literal means its identifier, whatever the case, also
    /// with `.exe` behind it, or as the last part of a name with dots in it.
    pub open spec fn means_app(self, app_id: Seq<char>) -> bool {
        match self {
            PatternModel::Literal(s) => same_ignoring_case(s, app_id) || (has_suffix(
                app_id,
                ".exe"@,
            ) && same_ignoring_case(s, app_id.take(app_id.len() - ".exe"@.len())))
                || same_ignoring_case(fields_of(s, '.').last(), app_id),
            PatternModel::Regex(source) => regex_match(source, app_id) == Some(true),
        }
    }

    /// The pattern means the process of this name, whatever the case.
    pub open spec fn means_process(self, name: Seq<char>) -> bool {
        match self {
            PatternModel::Literal(s) => same_ignoring_case(name, s),
            PatternModel::Regex(source) => regex_match(source, name) == Some(true),
        }
    }
}

/// Some pattern means the application.
pub open spec fn inhibits_app(patterns: Seq<PatternModel>, app_id: Seq<char>) -> bool {
    app_id.len() > 0 && exists|i: int|
        0 <= i < patterns.len() && (#[trigger] patterns[i]).means_app(app_id)
}

/// Some pattern means the process.
pub open spec fn inhibits_process(patterns: Seq<PatternModel>, name: Seq<char>) -> bool {
    exists|i: int| 0 <= i < patterns.len() && (#[trigger] patterns[i]).means_process(name)
}

fn app_id_matches_static(pattern: &str, app_id: &str) -> (r: bool)
    ensures
        r == PatternModel::Literal(pattern@).means_app(app_id@),
{
    if eq_ignore_case(pattern, app_id) {
        return true;
    }
    if let Some(name) = strip_suffix(app_id, ".exe") {
        if eq_ignore_case(pattern, name.as_str()) {
            return true;
        }
    }
    let parts = split_char(pattern, '.');
    assert(views(parts@).last() == parts@[parts@.len() - 1]@);
    eq_ignore_case(parts[parts.len() - 1].as_str(), app_id)
}

/// Whether some pattern means the application.
pub fn should_inhibit_app_id(app_id: &str, patterns: &Vec<Pattern>) -> (r: bool)
    ensures
        r == inhibits_app(pattern_views(patterns@), app_id@),
{
    if app_id.unicode_len() == 0 {
        return false;
    }
    let ghost v = pattern_views(patterns@);
    for i in 0..patterns.len()
        invariant
            v == pattern_views(patterns@),
            app_id@.len() > 0,
            forall|k: int| 0 <= k < i ==> !(#[trigger] v[k]).means_app(app_id@),
    {
        assert(v[i as int] == patterns@[i as int]@);
        let matched = match &patterns[i] {
            Pattern::Literal(s) => app_id_matches_static(s.as_str(), app_id),
            Pattern::Regex(source) => regex_found(source.as_str(), app_id),
        };
        if matched {
            assert(v[i as int].means_app(app_id@));
            return true;
        }
    }
    false
}

/// The name under which a process is counted, if some pattern means it.
pub fn proc_match_key(hay: &str, apps: &Vec<Pattern>) -> (r: Option<String>)
    ensures
        opt_view(r) == (if inhibits_process(pattern_views(apps@), hay@) {
            Some(lowercase(hay@))
        } else {
            None
        }),
{
    let ghost v = pattern_views(apps@);
    for i in 0..apps.len()
        invariant
            v == pattern_views(apps@),
            forall|k: int| 0 <= k < i ==> !(#[trigger] v[k]).means_process(hay@),
    {
        assert(v[i as int] == apps@[i as int]@);
        let matched = match &apps[i] {
            Pattern::Literal(s) => eq_ignore_case(hay, s.as_str()),
            Pattern::Regex(source) => regex_found(source.as_str(), hay),
        };
        if matched {
            assert(v[i as int].means_process(hay@));
            return Some(to_lowercase(hay));
        }
    }
    None
}

// ---------------------------------------------------------------------------------------------
// Counting
// ---------------------------------------------------------------------------------------------

/// The classes among the first `n` windows that inhibit.
pub open spec fn window_classes(windows: Seq<JsonModel>, apps: Seq<PatternModel>, n: int) -> Set<
    Seq<char>,
>
    decreases n,
{
    if n <= 0 {
        Set::empty()
    } else {
        let before = window_classes(windows, apps, n - 1);
        let class = windows[n - 1].text_or_empty("class"@);
        if inhibits_app(apps, class) {
            before.insert(class)
        } else {
            before
        }
    }
}

/// How many classes of windows inhibit, by the list of Hyprland; `None` if there is no list.
pub open spec fn hyprland_count(value: Option<JsonModel>, apps: Seq<PatternModel>) -> Option<nat> {
    match value {
        Some(JsonModel::Array(windows)) => Some(
            window_classes(windows, apps, windows.len() as int).len(),
        ),
        _ => None,
    }
}

/// How many classes of windows inhibit.
pub fn count_hyprland_windows(value: &Option<Json>, apps: &Vec<Pattern>) -> (r: Option<u64>)
    ensures
        match r {
            Some(n) => hyprland_count(json_view(*value), pattern_views(apps@)) == Some(n as nat),
            None => hyprland_count(json_view(*value), pattern_views(apps@)) is None,
        },
{
    match value {
        Some(Json::Array(windows)) => {
            let ghost v = pattern_views(apps@);
            let ghost all = json_view(*value)->0->Array_0;
            let mut seen: Vec<String> = Vec::new();
            assert(views(seen@).to_set() =~= Set::<Seq<char>>::empty());
            for i in 0..windows.len()
                invariant
                    v == pattern_views(apps@),
                    all.len() == windows@.len(),
                    forall|k: int| 0 <= k < all.len() ==> #[trigger] all[k] == windows@[k]@,
                    views(seen@).no_duplicates(),
                    views(seen@).to_set() == window_classes(all, v, i as int),
            {
                let class = windows[i].str_or_empty("class");
                if should_inhibit_app_id(class.as_str(), apps) {
                    add_once(&mut seen, class);
                }
            }
            proof {
                distinct_count(views(seen@));
            }
            Some(seen.len() as u64)
        },
        _ => None,
    }
}

/// How many classes of windows inhibit, by the output of `hyprctl clients -j`; `None` if it is not
/// a list in JSON.
pub fn count_hyprland(output: &Vec<u8>, apps: &Vec<Pattern>) -> (r: Option<u64>)
    ensures
        match r {
            Some(n) => hyprland_count(json_text(output@), pattern_views(apps@)) == Some(n as nat),
            None => hyprland_count(json_text(output@), pattern_views(apps@)) is None,
        },
{
    let value = parse_json(output);
    count_hyprland_windows(&value, apps)
}

/// The application of a line of `niri msg windows`.
pub open spec fn niri_app(line: Seq<char>) -> Option<Seq<char>> {
    if has_prefix(line, "  App ID: "@) {
        Some(
            stripped_end(
                stripped_start(trimmed(line.skip("  App ID: "@.len() as int)), '"'),
                '"',
            ),
        )
    } else {
        None
    }
}

/// The applications among the first `n` lines that inhibit.
pub open spec fn niri_apps(all: Seq<Seq<char>>, apps: Seq<PatternModel>, n: int) -> Set<Seq<char>>
    decreases n,
{
    if n <= 0 {
        Set::empty()
    } else {
        let before = niri_apps(all, apps, n - 1);
        match niri_app(all[n - 1]) {
            Some(id) if inhibits_app(apps, id) => before.insert(id),
            _ => before,
        }
    }
}

/// How many applications inhibit, by the output of `niri msg windows`.
pub open spec fn niri_count(text: Seq<char>, apps: Seq<PatternModel>) -> nat {
    niri_apps(lines_of(text), apps, lines_of(text).len() as int).len()
}

/// How many applications inhibit, by the output of `niri msg windows`.
pub fn count_niri(text: &str, apps: &Vec<Pattern>) -> (r: u64)
    ensures
        r == niri_count(text@, pattern_views(apps@)),
{
    let all = lines(text);
    let ghost v = views(all@);
    let ghost p = pattern_views(apps@);
    let mut seen: Vec<String> = Vec::new();
    assert(views(seen@).to_set() =~= Set::<Seq<char>>::empty());
    for i in 0..all.len()
        invariant
            v == views(all@),
            p == pattern_views(apps@),
            views(seen@).no_duplicates(),
            views(seen@).to_set() == niri_apps(v, p, i as int),
    {
        assert(v[i as int] == all@[i as int]@);
        if let Some(rest) = strip_prefix(all[i].as_str(), "  App ID: ") {
            let t = trim(rest.as_str());
            let id = trim_char(t.as_str(), '"');
            if should_inhibit_app_id(id.as_str(), apps) {
                add_once(&mut seen, id);
            }
        }
    }
    proof {
        distinct_count(views(seen@));
    }
    seen.len() as u64
}

/// A process as the system shows it: the name of its directory, and the contents of `comm` and
/// `cmdline` where they could be read.
#[derive(Debug)]
pub struct ProcEntry {
    pub name: String,
    pub comm: Option<String>,
    pub cmdline: Option<String>,
}

/// The command that a command line begins with: its parts stand between zero bytes.
pub open spec fn first_argument(cmdline: Seq<char>) -> Option<Seq<char>> {
    let parts = fields_of(cmdline, '\0').filter(|p: Seq<char>| p.len() > 0);
    let words = words_of(joined(parts, " "@));
    if words.len() > 0 {
        Some(words[0])
    } else {
        None
    }
}

impl ProcEntry {
    /// The name under which the process is counted: by its own name, or else by its command.
    pub open spec fn key(self, apps: Seq<PatternModel>) -> Option<Seq<char>> {
        if !all_digits(self.name@) {
            None
        } else if self.comm matches Some(c) && inhibits_process(apps, trimmed(c@)) {
            Some(lowercase(trimmed(self.comm->0@)))
        } else {
            match self.cmdline {
                Some(line) => match first_argument(line@) {
                    Some(a) if inhibits_process(apps, a) => Some(lowercase(a)),
                    _ => None,
                },
                None => None,
            }
        }
    }
}

/// The names of the first `n` processes that inhibit.
pub open spec fn process_keys(entries: Seq<ProcEntry>, apps: Seq<PatternModel>, n: int) -> Set<
    Seq<char>,
>
    decreases n,
{
    if n <= 0 {
        Set::empty()
    } else {
        match entries[n - 1].key(apps) {
            Some(k) => process_keys(entries, apps, n - 1).insert(k),
            None => process_keys(entries, apps, n - 1),
        }
    }
}

fn argv0(cmdline: &str) -> (r: Option<String>)
    ensures
        opt_view(r) == first_argument(cmdline@),
{
    let all = split_char(cmdline, '\0');
    let ghost v = views(all@);
    let ghost keep = |p: Seq<char>| p.len() > 0;
    let mut parts: Vec<String> = Vec::new();
    assert(v.take(0).filter(keep) =~= Seq::<Seq<char>>::empty()) by {
        reveal(Seq::filter);
    }
    for i in 0..all.len()
        invariant
            v == views(all@),
            keep == (|p: Seq<char>| p.len() > 0),
            views(parts@) =~= v.take(i as int).filter(keep),
    {
        assert(v.take(i + 1).drop_last() =~= v.take(i as int));
        assert(v.take(i + 1).last() == all@[i as int]@);
        let ghost before = views(parts@);
        reveal(Seq::filter);
        if all[i].as_str().unicode_len() > 0 {
            parts.push(all[i].clone());
            assert(views(parts@) =~= before.push(all@[i as int]@));
        }
    }
    assert(v.take(v.len() as int) =~= v);
    let whole = join(&parts, " ");
    let words = split_whitespace(whole.as_str());
    assert(views(words@).len() == words@.len());
    if words.len() > 0 {
        assert(views(words@)[0] == words@[0]@);
        Some(words[0].clone())
    } else {
        None
    }
}

fn only_digits(s: &str) -> (r: bool)
    ensures
        r == all_digits(s@),
{
    let v = chars_of(s);
    for i in 0..v.len()
        invariant
            v@ == s@,
            forall|k: int| 0 <= k < i ==> is_digit(#[trigger] s@[k]),
    {
        if !digit(v[i]) {
            assert(!is_digit(s@[i as int]));
            return false;
        }
    }
    true
}

fn process_key(e: &ProcEntry, apps: &Vec<Pattern>) -> (r: Option<String>)
    ensures
        opt_view(r) == e.key(pattern_views(apps@)),
{
    if !only_digits(e.name.as_str()) {
        return None;
    }
    if let Some(c) = &e.comm {
        let name = trim(c.as_str());
        if let Some(k) = proc_match_key(name.as_str(), apps) {
            return Some(k);
        }
    }
    match &e.cmdline {
        Some(line) => match argv0(line.as_str()) {
            Some(a) => proc_match_key(a.as_str(), apps),
            None => None,
        },
        None => None,
    }
}

/// How many processes inhibit, each name counted once.
pub fn count_processes(entries: &Vec<ProcEntry>, apps: &Vec<Pattern>) -> (r: u64)
    ensures
        r == process_keys(entries@, pattern_views(apps@), entries@.len() as int).len(),
{
    let ghost p = pattern_views(apps@);
    let mut seen: Vec<String> = Vec::new();
    assert(views(seen@).to_set() =~= Set::<Seq<char>>::empty());
    for i in 0..entries.len()
        invariant
            p == pattern_views(apps@),
            views(seen@).no_duplicates(),
            views(seen@).to_set() == process_keys(entries@, p, i as int),
    {
        if let Some(k) = process_key(&entries[i], apps) {
            add_once(&mut seen, k);
        }
    }
    proof {
        distinct_count(views(seen@));
    }
    seen.len() as u64
}

// ---------------------------------------------------------------------------------------------
// Reporting
// ---------------------------------------------------------------------------------------------

/// Decides when to look for applications, and when to report how many there are.
#[derive(Debug)]
pub struct AppInhibitService {
    apps: Vec<Pattern>,
    backend: AppBackend,
    poll_interval_ms: u64,
    last_poll_ms: u64,
    // None => never polled yet
    last_count: Option<u64>,
    // next poll must emit
    force_emit: bool,
}

/// What stands for an [`AppInhibitService`] in contracts.
#[verifier::ext_equal]
pub struct AppServiceModel {
    pub apps: Seq<PatternModel>,
    pub backend: AppBackend,
    pub poll_interval_ms: u64,
    pub last_poll_ms: u64,
    pub last_count: Option<u64>,
    pub force_emit: bool,
}

impl View for AppInhibitService {
    type V = AppServiceModel;

    closed spec fn view(&self) -> AppServiceModel {
        AppServiceModel {
            apps: pattern_views(self.apps@),
            backend: self.backend,
            poll_interval_ms: self.poll_interval_ms,
            last_poll_ms: self.last_poll_ms,
            last_count: self.last_count,
            force_emit: self.force_emit,
        }
    }
}

impl AppServiceModel {
    /// The next poll is not put off, and reports whatever it finds.
    pub open spec fn forced(self) -> AppServiceModel {
        AppServiceModel { force_emit: true, last_poll_ms: 0, ..self }
    }

    /// Enough time has passed since the last poll.
    pub open spec fn is_due(self, now_ms: u64) -> bool {
        now_ms >= later(self.last_poll_ms, self.poll_interval_ms)
    }

    /// What counts: nothing without rules, and what was there before if the query failed.
    pub open spec fn count_of(self, queried: Option<u64>) -> u64 {
        if self.apps.len() == 0 {
            0
        } else {
            match (queried, self.last_count) {
                (Some(n), _) => n,
                (None, Some(n)) => n,
                (None, None) => 0,
            }
        }
    }

    /// The count is reported: the first, every other one, and where that is forced.
    pub open spec fn reports(self, count: u64) -> bool {
        self.force_emit || self.last_count != Some(count)
    }
}

impl AppInhibitService {
    pub fn new(inhibit_apps: &Vec<Pattern>, backend: AppBackend) -> (r: Self)
        ensures
            r@ == (AppServiceModel {
                apps: pattern_views(inhibit_apps@),
                backend,
                poll_interval_ms: 1000,
                last_poll_ms: 0,
                last_count: None,
                force_emit: false,
            }),
    {
        AppInhibitService {
            apps: clone_patterns(inhibit_apps),
            backend,
            poll_interval_ms: 1000,
            last_poll_ms: 0,
            last_count: None,
            force_emit: false,
        }
    }

    /// The service with another interval between polls, at least a tenth of a second.
    pub fn with_poll_interval_ms(self, ms: u64) -> (r: Self)
        ensures
            r@ == (AppServiceModel {
                poll_interval_ms: if ms < 100 {
                    100
                } else {
                    ms
                },
                ..self@
            }),
    {
        let mut s = self;
        s.poll_interval_ms = if ms < 100 {
            100
        } else {
            ms
        };
        s
    }

    /// Takes other rules on; if they differ, the next poll reports.
    pub fn reconfigure(&mut self, inhibit_apps: &Vec<Pattern>)
        ensures
            final(self)@ == (if shown_alike(old(self)@.apps, pattern_views(inhibit_apps@)) {
                old(self)@
            } else {
                AppServiceModel {
                    apps: pattern_views(inhibit_apps@),
                    ..old(self)@
                }.forced()
            }),
    {
        if patterns_same(&self.apps, inhibit_apps) {
            return ;
        }
        self.apps = clone_patterns(inhibit_apps);
        self.force_emit_next();
    }

    pub fn force_emit_next(&mut self)
        ensures
            final(self)@ == old(self)@.forced(),
    {
        self.force_emit = true;
        self.last_poll_ms = 0;
    }

    pub fn backend(&self) -> (r: AppBackend)
        ensures
            r == self@.backend,
    {
        self.backend
    }

    pub fn backend_name(&self) -> (r: &'static str)
        ensures
            r@ == (match self@.backend {
                AppBackend::Hyprland => "hyprland"@,
                AppBackend::Niri => "niri"@,
                AppBackend::Proc => "proc"@,
            }),
    {
        match self.backend {
            AppBackend::Hyprland => "hyprland",
            AppBackend::Niri => "niri",
            AppBackend::Proc => "proc",
        }
    }

    /// The rules that the next query is for.
    pub fn rules(&self) -> (r: &Vec<Pattern>)
        ensures
            pattern_views(r@) == self@.apps,
    {
        &self.apps
    }

    /// Whether it is time to poll; if so, the time is noted.
    pub fn begin_poll(&mut self, now_ms: u64) -> (r: bool)
        ensures
            r == old(self)@.is_due(now_ms),
            final(self)@ == (if r {
                AppServiceModel { last_poll_ms: now_ms, ..old(self)@ }
            } else {
                old(self)@
            }),
    {
        if now_ms < add_ms(self.last_poll_ms, self.poll_interval_ms) {
            return false;
        }
        self.last_poll_ms = now_ms;
        true
    }

    /// Takes the result of a query, `None` if it failed, and gives the event that is to be
    /// reported.
    pub fn finish_poll(&mut self, now_ms: u64, queried: Option<u64>) -> (r: Option<Event>)
        ensures
            ({
                let count = old(self)@.count_of(queried);
                if old(self)@.reports(count) {
                    r == Some(Event::AppInhibitorCount { count, now_ms }) && final(self)@ == (
                    AppServiceModel { last_count: Some(count), force_emit: false, ..old(self)@ })
                } else {
                    r is None && final(self)@ == old(self)@
                }
            }),
    {
        assert(pattern_views(self.apps@).len() == self.apps@.len());
        let count = if self.apps.len() == 0 {
            0
        } else {
            match queried {
                Some(n) => n,
                None => match self.last_count {
                    Some(n) => n,
                    None => 0,
                },
            }
        };
        let known = match self.last_count {
            Some(n) => n == count,
            None => false,
        };
        if !known || self.force_emit {
            self.last_count = Some(count);
            self.force_emit = false;
            Some(Event::AppInhibitorCount { count, now_ms })
        } else {
            None
        }
    }
}

/// Follows the rules for applications.
#[derive(Debug)]
pub struct AppWatch {
    last_epoch: u64,
}

impl View for AppWatch {
    type V = u64;

    closed spec fn view(&self) -> u64 {
        self.last_epoch
    }
}

impl AppWatch {
    /// Begins to follow the rules, with a service whose first poll reports.
    pub fn start(rules: &AppRules, backend: AppBackend) -> (r: (Self, AppInhibitService))
        ensures
            r.0@ == rules.epoch,
            r.1@ == (AppServiceModel {
                apps: pattern_views(rules.apps@),
                backend,
                poll_interval_ms: 1000,
                last_poll_ms: 0,
                last_count: None,
                force_emit: false,
            }).forced(),
    {
        let mut svc = AppInhibitService::new(&rules.apps, backend);
        svc.force_emit_next();
        (AppWatch { last_epoch: rules.epoch }, svc)
    }

    /// Takes other rules on. Those of another epoch make the next poll report, even if they are
    /// the same.
    pub fn update(&mut self, svc: &mut AppInhibitService, rules: &AppRules)
        ensures
            final(self)@ == rules.epoch,
            ({
                let before = if rules.epoch != old(self)@ {
                    old(svc)@.forced()
                } else {
                    old(svc)@
                };
                final(svc)@ == (if shown_alike(before.apps, pattern_views(rules.apps@)) {
                    before
                } else {
                    AppServiceModel { apps: pattern_views(rules.apps@), ..before }.forced()
                })
            }),
    {
        if rules.epoch != self.last_epoch {
            self.last_epoch = rules.epoch;
            svc.force_emit_next();
        }
        svc.reconfigure(&rules.apps);
    }
}

/// A count is reported once: a later poll that finds the same reports nothing.
pub proof fn same_count_is_reported_once(s: AppServiceModel, count: u64)
    ensures
        !(AppServiceModel { last_count: Some(count), force_emit: false, ..s }).reports(count),
{
}

/// A forced poll is never put off and always reports.
pub proof fn forced_poll_reports(s: AppServiceModel, now_ms: u64, queried: Option<u64>)
    requires
        now_ms >= s.poll_interval_ms,
    ensures
        s.forced().is_due(now_ms),
        s.forced().reports(s.forced().count_of(queried)),
{
}

} // verus!
