//! Media that plays: which windows count, and when the count is reported.

use vstd::prelude::*;

use super::app_inhibit::{desktop_contains, desktop_has};
use super::json::{json_text, json_view, parse_json, Json, JsonModel};
use super::sets::{add_once, distinct_count};
use crate::config::pattern::{
    any_matches, clone_patterns, pattern_views, patterns_same, shown_alike, some_matches, Pattern,
    PatternModel,
};
use crate::events::{Event, MediaState};
use crate::text::numbers::{i64_to_string, signed_decimal};
use crate::text::strings::{cat, contains, has_part, lowercase, opt_view, to_lowercase, views};
use crate::time::{add_ms, later};

verus! {

/// What is watched. The epoch tells a new set of rules from an old one with the same values.
#[derive(Debug)]
pub struct MediaRules {
    pub epoch: u64,
    pub monitor_media: bool,
    pub ignore_remote_media: bool,
    pub media_blacklist: Vec<Pattern>,
}

// ---------------------------------------------------------------------------------------------
// Where media is looked for
// ---------------------------------------------------------------------------------------------

/// Where media is looked for.
#[derive(Debug, Clone, Copy, PartialEq, Eq, Structural)]
pub enum MediaBackend {
    Hyprland,
    Niri,
    Nowhere,
}

/// Where media is looked for, by what the environment says of the compositor.
pub open spec fn media_backend(
    hyprland_signature: bool,
    desktop: Option<Seq<char>>,
    niri_socket: bool,
) -> MediaBackend {
    if hyprland_signature {
        MediaBackend::Hyprland
    } else if niri_socket {
        MediaBackend::Niri
    } else if desktop_has(desktop, "hyprland"@) {
        MediaBackend::Hyprland
    } else if desktop_has(desktop, "niri"@) {
        MediaBackend::Niri
    } else {
        MediaBackend::Nowhere
    }
}

/// Where media is looked for, by what the environment says of the compositor.
pub fn detect_media_backend(
    hyprland_signature: bool,
    desktop: &Option<String>,
    niri_socket: bool,
) -> (r: MediaBackend)
    ensures
        r == media_backend(hyprland_signature, opt_view(*desktop), niri_socket),
{
    if hyprland_signature {
        MediaBackend::Hyprland
    } else if niri_socket {
        MediaBackend::Niri
    } else if desktop_contains(desktop, "hyprland") {
        MediaBackend::Hyprland
    } else if desktop_contains(desktop, "niri") {
        MediaBackend::Niri
    } else {
        MediaBackend::Nowhere
    }
}

// ---------------------------------------------------------------------------------------------
// Windows
// ---------------------------------------------------------------------------------------------

/// The field of the window says that it keeps the session from idling.
pub open spec fn says(window: JsonModel, key: Seq<char>) -> bool {
    window.field(key) matches Some(v) && v.truthy()
}

/// The window keeps the session from idling.
pub open spec fn keeps_awake(window: JsonModel) -> bool {
    says(window, "inhibitingIdle"@) || says(window, "inhibitingidle"@) || says(
        window,
        "idleInhibit"@,
    ) || says(window, "idle_inhibit"@) || says(window, "isIdleInhibited"@) || says(
        window,
        "is_idle_inhibited"@,
    ) || says(window, "idleInhibitor"@)
}

/// What a window is called, in lower case.
pub open spec fn window_words(window: JsonModel) -> Seq<char> {
    lowercase(window_names(window))
}

/// What a window is called.
pub open spec fn window_names(window: JsonModel) -> Seq<char> {
    window.text_or_empty("class"@) + " "@ + window.text_or_empty("initialClass"@) + " "@
        + window.text_or_empty("title"@) + " "@ + window.text_or_empty("initialTitle"@)
}

/// The words name a browser.
pub open spec fn names_browser_window(words: Seq<char>) -> bool {
    has_part(words, "firefox"@) || has_part(words, "chromium"@) || has_part(words, "google-chrome"@)
        || has_part(words, "chrome"@) || has_part(words, "brave"@) || has_part(words, "vivaldi"@)
        || has_part(words, "microsoft-edge"@) || has_part(words, "msedge"@) || has_part(
        words,
        "opera"@,
    ) || has_part(words, "tor browser"@) || has_part(words, "zen browser"@) || has_part(
        words,
        "waterfox"@,
    ) || has_part(words, "librewolf"@)
}

/// The name under which a window is counted: its address, or its process, or what it is called.
pub open spec fn window_key(window: JsonModel) -> Seq<char> {
    let class = lowercase(window.text_or_empty("class"@));
    let title = lowercase(window.text_or_empty("title"@));
    match (window.text("address"@), window.field("pid"@)) {
        (Some(a), _) => "addr:"@ + lowercase(a),
        (None, Some(JsonModel::Number { signed: Some(pid), .. })) => "pid:"@ + signed_decimal(
            pid as int,
        ),
        _ => if class.len() > 0 || title.len() > 0 {
            class + ":"@ + title
        } else {
            "unknown"@
        },
    }
}

/// The window counts: it keeps the session from idling, and is neither a browser nor to be
/// ignored.
pub open spec fn window_counts(window: JsonModel, ignored: Seq<PatternModel>) -> bool {
    keeps_awake(window) && !names_browser_window(window_words(window)) && !some_matches(
        ignored,
        window_words(window),
    )
}

/// The names of the first `n` windows that count.
pub open spec fn window_keys(windows: Seq<JsonModel>, ignored: Seq<PatternModel>, n: int) -> Set<
    Seq<char>,
>
    decreases n,
{
    if n <= 0 {
        Set::empty()
    } else if window_counts(windows[n - 1], ignored) {
        window_keys(windows, ignored, n - 1).insert(window_key(windows[n - 1]))
    } else {
        window_keys(windows, ignored, n - 1)
    }
}

/// How many windows count, by the list of Hyprland; `None` if there is no list.
pub open spec fn playing_count(value: Option<JsonModel>, ignored: Seq<PatternModel>) -> Option<nat> {
    match value {
        Some(JsonModel::Array(windows)) => Some(
            window_keys(windows, ignored, windows.len() as int).len(),
        ),
        _ => None,
    }
}

fn field_says(window: &Json, key: &str) -> (r: bool)
    ensures
        r == says(window@, key@),
{
    match window.get(key) {
        Some(v) => v.is_truthy(),
        None => false,
    }
}

fn client_is_idle_inhibiting(window: &Json) -> (r: bool)
    ensures
        r == keeps_awake(window@),
{
    field_says(window, "inhibitingIdle") || field_says(window, "inhibitingidle") || field_says(
        window,
        "idleInhibit",
    ) || field_says(window, "idle_inhibit") || field_says(window, "isIdleInhibited") || field_says(
        window,
        "is_idle_inhibited",
    ) || field_says(window, "idleInhibitor")
}

/// Whether the words, in lower case, name a browser.
pub fn is_browser_text(words: &str) -> (r: bool)
    ensures
        r == names_browser_window(words@),
{
    contains(words, "firefox") || contains(words, "chromium") || contains(words, "google-chrome")
        || contains(words, "chrome") || contains(words, "brave") || contains(words, "vivaldi")
        || contains(words, "microsoft-edge") || contains(words, "msedge") || contains(
        words,
        "opera",
    ) || contains(words, "tor browser") || contains(words, "zen browser") || contains(
        words,
        "waterfox",
    ) || contains(words, "librewolf")
}

fn client_words(window: &Json) -> (r: String)
    ensures
        r@ == window_words(window@),
{
    let mut names = window.str_or_empty("class");
    names.append(" ");
    names.append(window.str_or_empty("initialClass").as_str());
    names.append(" ");
    names.append(window.str_or_empty("title").as_str());
    names.append(" ");
    names.append(window.str_or_empty("initialTitle").as_str());
    to_lowercase(names.as_str())
}

fn client_key(window: &Json) -> (r: String)
    ensures
        r@ == window_key(window@),
{
    if let Some(a) = window.get_str("address") {
        return cat("addr:", to_lowercase(a).as_str());
    }
    if let Some(Json::Number { signed: Some(pid), .. }) = window.get("pid") {
        return cat("pid:", i64_to_string(*pid).as_str());
    }
    let class = to_lowercase(window.str_or_empty("class").as_str());
    let title = to_lowercase(window.str_or_empty("title").as_str());
    if class.as_str().unicode_len() > 0 || title.as_str().unicode_len() > 0 {
        let head = cat(class.as_str(), ":");
        return cat(head.as_str(), title.as_str());
    }
    String::from_str("unknown")
}

/// How many windows count.
pub fn count_playing_windows(value: &Option<Json>, ignored: &Vec<Pattern>) -> (r: Option<u64>)
    ensures
        match r {
            Some(n) => playing_count(json_view(*value), pattern_views(ignored@)) == Some(n as nat),
            None => playing_count(json_view(*value), pattern_views(ignored@)) is None,
        },
{
    match value {
        Some(Json::Array(windows)) => {
            let ghost p = pattern_views(ignored@);
            let ghost all = json_view(*value)->0->Array_0;
            let mut seen: Vec<String> = Vec::new();
            assert(views(seen@).to_set() =~= Set::<Seq<char>>::empty());
            for i in 0..windows.len()
                invariant
                    p == pattern_views(ignored@),
                    all.len() == windows@.len(),
                    forall|k: int| 0 <= k < all.len() ==> #[trigger] all[k] == windows@[k]@,
                    views(seen@).no_duplicates(),
                    views(seen@).to_set() == window_keys(all, p, i as int),
            {
                let w = &windows[i];
                if client_is_idle_inhibiting(w) {
                    let words = client_words(w);
                    if !is_browser_text(words.as_str()) && !any_matches(ignored, words.as_str()) {
                        add_once(&mut seen, client_key(w));
                    }
                }
            }
            proof {
                distinct_count(views(seen@));
            }
            Some(seen.len() as u64)
        },
        _ => None,
    }
}

/// How many windows count, by the output of `hyprctl clients -j`; `None` if it is not a list in
/// JSON.
pub fn count_playing(output: &Vec<u8>, ignored: &Vec<Pattern>) -> (r: Option<u64>)
    ensures
        match r {
            Some(n) => playing_count(json_text(output@), pattern_views(ignored@)) == Some(n as nat),
            None => playing_count(json_text(output@), pattern_views(ignored@)) is None,
        },
{
    let value = parse_json(output);
    count_playing_windows(&value, ignored)
}

// ---------------------------------------------------------------------------------------------
// Reporting
// ---------------------------------------------------------------------------------------------

/// Decides when to look for media, and when to report it.
#[derive(Debug)]
pub struct MediaService {
    ignore_remote_media: bool,
    media_blacklist: Vec<Pattern>,
    backend: MediaBackend,
    poll_interval_ms: u64,
    last_poll_ms: u64,
    last_count: Option<u64>,
    last_state: Option<MediaState>,
    force_emit: bool,
}

/// What stands for a [`MediaService`] in contracts.
#[verifier::ext_equal]
pub struct MediaServiceModel {
    pub ignore_remote_media: bool,
    pub media_blacklist: Seq<PatternModel>,
    pub backend: MediaBackend,
    pub poll_interval_ms: u64,
    pub last_poll_ms: u64,
    pub last_count: Option<u64>,
    pub last_state: Option<MediaState>,
    pub force_emit: bool,
}

impl View for MediaService {
    type V = MediaServiceModel;

    closed spec fn view(&self) -> MediaServiceModel {
        MediaServiceModel {
            ignore_remote_media: self.ignore_remote_media,
            media_blacklist: pattern_views(self.media_blacklist@),
            backend: self.backend,
            poll_interval_ms: self.poll_interval_ms,
            last_poll_ms: self.last_poll_ms,
            last_count: self.last_count,
            last_state: self.last_state,
            force_emit: self.force_emit,
        }
    }
}

/// Something plays, or nothing does.
pub open spec fn state_of(count: u64) -> MediaState {
    if count > 0 {
        MediaState::PlayingLocal
    } else {
        MediaState::Idle
    }
}

/// The two events of a report.
pub open spec fn report(count: u64, now_ms: u64) -> Seq<Event> {
    seq![
        Event::MediaInhibitorCount { count, now_ms },
        Event::MediaStateChanged { state: state_of(count), now_ms },
    ]
}

impl MediaServiceModel {
    /// The next poll is not put off, and reports whatever it finds.
    pub open spec fn forced(self) -> MediaServiceModel {
        MediaServiceModel { force_emit: true, last_poll_ms: 0, ..self }
    }

    /// Enough time has passed since the last poll.
    pub open spec fn is_due(self, now_ms: u64) -> bool {
        now_ms >= later(self.last_poll_ms, self.poll_interval_ms)
    }

    /// What counts: what the query found, or what was there before if it failed. Where nothing can
    /// be asked, nothing counts.
    pub open spec fn count_of(self, queried: Option<u64>) -> u64 {
        match self.backend {
            MediaBackend::Hyprland => match (queried, self.last_count) {
                (Some(n), _) => n,
                (None, Some(n)) => n,
                (None, None) => 0,
            },
            _ => 0,
        }
    }

    /// The count is reported: the first, every other one, and where that is forced.
    pub open spec fn reports(self, count: u64) -> bool {
        self.force_emit || self.last_count != Some(count) || self.last_state != Some(
            state_of(count),
        )
    }

    pub open spec fn reported(self, count: u64) -> MediaServiceModel {
        MediaServiceModel {
            last_count: Some(count),
            last_state: Some(state_of(count)),
            force_emit: false,
            ..self
        }
    }
}

/// What stands for the events of a poll in contracts.
pub open spec fn events_view(o: Option<Vec<Event>>) -> Option<Seq<Event>> {
    match o {
        Some(v) => Some(v@),
        None => None,
    }
}

impl MediaService {
    pub fn new(ignore_remote_media: bool, media_blacklist: Vec<Pattern>, backend: MediaBackend) -> (r:
        Self)
        ensures
            r@ == (MediaServiceModel {
                ignore_remote_media,
                media_blacklist: pattern_views(media_blacklist@),
                backend,
                poll_interval_ms: 1000,
                last_poll_ms: 0,
                last_count: None,
                last_state: None,
                force_emit: false,
            }),
    {
        MediaService {
            ignore_remote_media,
            media_blacklist,
            backend,
            poll_interval_ms: 1000,
            last_poll_ms: 0,
            last_count: None,
            last_state: None,
            force_emit: false,
        }
    }

    /// The service with another interval between polls, at least a tenth of a second.
    pub fn with_poll_interval_ms(self, ms: u64) -> (r: Self)
        ensures
            r@ == (MediaServiceModel {
                poll_interval_ms: if ms < 100 {
                    100
                } else {
                    ms
                },
                ..self@
            }),
    {
        let mut s = self;
        s.poll_interval_ms = if ms < 100 {
            100
        } else {
            ms
        };
        s
    }

    pub fn blacklist_len(&self) -> (r: usize)
        ensures
            r == self@.media_blacklist.len(),
    {
        assert(pattern_views(self.media_blacklist@).len() == self.media_blacklist@.len());
        self.media_blacklist.len()
    }

    /// What is to be ignored.
    pub fn blacklist(&self) -> (r: &Vec<Pattern>)
        ensures
            pattern_views(r@) == self@.media_blacklist,
    {
        &self.media_blacklist
    }

    pub fn backend(&self) -> (r: MediaBackend)
        ensures
            r == self@.backend,
    {
        self.backend
    }

    pub fn backend_name(&self) -> (r: &'static str)
        ensures
            r@ == (match self@.backend {
                MediaBackend::Hyprland => "hyprland"@,
                MediaBackend::Niri => "niri"@,
                MediaBackend::Nowhere => "none"@,
            }),
    {
        match self.backend {
            MediaBackend::Hyprland => "hyprland",
            MediaBackend::Niri => "niri",
            MediaBackend::Nowhere => "none",
        }
    }

    /// Takes other rules on; if they differ, the next poll reports.
    pub fn reconfigure(&mut self, ignore_remote_media: bool, media_blacklist: Vec<Pattern>)
        ensures
            ({
                let taken = MediaServiceModel {
                    ignore_remote_media,
                    media_blacklist: pattern_views(media_blacklist@),
                    ..old(self)@
                };
                final(self)@ == (if old(self)@.ignore_remote_media == ignore_remote_media
                    && shown_alike(old(self)@.media_blacklist, pattern_views(media_blacklist@)) {
                    taken
                } else {
                    taken.forced()
                })
            }),
    {
        let changed = self.ignore_remote_media != ignore_remote_media || !patterns_same(
            &self.media_blacklist,
            &media_blacklist,
        );
        self.ignore_remote_media = ignore_remote_media;
        self.media_blacklist = media_blacklist;
        if changed {
            self.force_emit_next();
        }
    }

    pub fn force_emit_next(&mut self)
        ensures
            final(self)@ == old(self)@.forced(),
    {
        self.force_emit = true;
        self.last_poll_ms = 0;
    }

    /// Whether it is time to poll; if so, the time is noted.
    pub fn begin_poll(&mut self, now_ms: u64) -> (r: bool)
        ensures
            r == old(self)@.is_due(now_ms),
            final(self)@ == (if r {
                MediaServiceModel { last_poll_ms: now_ms, ..old(self)@ }
            } else {
                old(self)@
            }),
    {
        if now_ms < add_ms(self.last_poll_ms, self.poll_interval_ms) {
            return false;
        }
        self.last_poll_ms = now_ms;
        true
    }

    /// Takes the result of a query, `None` if it failed, and gives the events that are to be
    /// reported.
    pub fn finish_poll(&mut self, now_ms: u64, queried: Option<u64>) -> (r: Option<Vec<Event>>)
        ensures
            ({
                let count = old(self)@.count_of(queried);
                if old(self)@.reports(count) {
                    events_view(r) == Some(report(count, now_ms)) && final(self)@ == old(
                        self,
                    )@.reported(count)
                } else {
                    r is None && final(self)@ == old(self)@
                }
            }),
    {
        let count: u64 = match self.backend {
            MediaBackend::Hyprland => match queried {
                Some(n) => n,
                None => match self.last_count {
                    Some(n) => n,
                    None => 0,
                },
            },
            _ => 0,
        };
        let state = if count > 0 {
            MediaState::PlayingLocal
        } else {
            MediaState::Idle
        };
        let count_known = match self.last_count {
            Some(n) => n == count,
            None => false,
        };
        let state_known = match self.last_state {
            Some(s) => s == state,
            None => false,
        };
        if !count_known || !state_known || self.force_emit {
            self.last_count = Some(count);
            self.last_state = Some(state);
            self.force_emit = false;
            let mut out: Vec<Event> = Vec::new();
            out.push(Event::MediaInhibitorCount { count, now_ms });
            out.push(Event::MediaStateChanged { state, now_ms });
            assert(out@ =~= report(count, now_ms));
            Some(out)
        } else {
            None
        }
    }
}

/// The events that say that nothing plays.
pub fn idle_events(now_ms: u64) -> (r: Vec<Event>)
    ensures
        r@ == report(0, now_ms),
{
    let mut out: Vec<Event> = Vec::new();
    out.push(Event::MediaInhibitorCount { count: 0, now_ms });
    out.push(Event::MediaStateChanged { state: MediaState::Idle, now_ms });
    assert(out@ =~= report(0, now_ms));
    out
}

// ---------------------------------------------------------------------------------------------
// Rules that change
// ---------------------------------------------------------------------------------------------

/// What the service does next.
#[derive(Debug, Clone, Copy, PartialEq, Eq, Structural)]
pub enum MediaStep {
    Nothing,
    /// Poll at once, and report.
    Poll,
    /// Report that nothing plays.
    SeedIdle,
}

/// Follows the rules of the service.
#[derive(Debug)]
pub struct MediaWatch {
    last_epoch: u64,
    ignore_first_epoch_bump: bool,
    last_enabled: bool,
}

/// What stands for a [`MediaWatch`] in contracts.
#[verifier::ext_equal]
pub struct MediaWatchModel {
    pub last_epoch: u64,
    pub ignore_first_epoch_bump: bool,
    pub last_enabled: bool,
}

impl View for MediaWatch {
    type V = MediaWatchModel;

    closed spec fn view(&self) -> MediaWatchModel {
        MediaWatchModel {
            last_epoch: self.last_epoch,
            ignore_first_epoch_bump: self.ignore_first_epoch_bump,
            last_enabled: self.last_enabled,
        }
    }
}

/// What switching the service on or off asks for.
pub open spec fn switched_to(enabled: bool) -> MediaStep {
    if enabled {
        MediaStep::Poll
    } else {
        MediaStep::SeedIdle
    }
}

impl MediaWatchModel {
    /// What new rules ask for. The first new epoch is passed over: it is that of the start.
    pub open spec fn step(self, epoch: u64, enabled: bool) -> (MediaWatchModel, MediaStep) {
        let next = MediaWatchModel { last_epoch: epoch, last_enabled: enabled, ..self };
        if enabled != self.last_enabled {
            (next, switched_to(enabled))
        } else if enabled && epoch != self.last_epoch {
            if self.ignore_first_epoch_bump {
                (MediaWatchModel { ignore_first_epoch_bump: false, ..next }, MediaStep::Nothing)
            } else {
                (next, MediaStep::Poll)
            }
        } else {
            (next, MediaStep::Nothing)
        }
    }
}

impl MediaWatch {
    /// Begins to follow the rules, and says what they ask for at first.
    pub fn start(rules: &MediaRules) -> (r: (Self, MediaStep))
        ensures
            r.0@ == (MediaWatchModel {
                last_epoch: rules.epoch,
                ignore_first_epoch_bump: true,
                last_enabled: rules.monitor_media,
            }),
            r.1 == switched_to(rules.monitor_media),
    {
        let watch = MediaWatch {
            last_epoch: rules.epoch,
            ignore_first_epoch_bump: true,
            last_enabled: rules.monitor_media,
        };
        (
            watch,
            if rules.monitor_media {
                MediaStep::Poll
            } else {
                MediaStep::SeedIdle
            },
        )
    }

    /// Takes new rules in, and says what they ask for; where it is a poll, it is forced.
    pub fn update(&mut self, svc: &mut MediaService, rules: &MediaRules) -> (r: MediaStep)
        ensures
            final(self)@ == old(self)@.step(rules.epoch, rules.monitor_media).0,
            r == old(self)@.step(rules.epoch, rules.monitor_media).1,
            ({
                let taken = MediaServiceModel {
                    ignore_remote_media: rules.ignore_remote_media,
                    media_blacklist: pattern_views(rules.media_blacklist@),
                    ..old(svc)@
                };
                let same = old(svc)@.ignore_remote_media == rules.ignore_remote_media
                    && shown_alike(
                    old(svc)@.media_blacklist,
                    pattern_views(rules.media_blacklist@),
                );
                final(svc)@ == (if same && r != MediaStep::Poll {
                    taken
                } else {
                    taken.forced()
                })
            }),
    {
        let bumped = rules.epoch != self.last_epoch;
        self.last_epoch = rules.epoch;
        svc.reconfigure(rules.ignore_remote_media, clone_patterns(&rules.media_blacklist));
        if rules.monitor_media != self.last_enabled {
            self.last_enabled = rules.monitor_media;
            if rules.monitor_media {
                svc.force_emit_next();
                MediaStep::Poll
            } else {
                MediaStep::SeedIdle
            }
        } else if rules.monitor_media && bumped {
            if self.ignore_first_epoch_bump {
                self.ignore_first_epoch_bump = false;
                MediaStep::Nothing
            } else {
                svc.force_emit_next();
                MediaStep::Poll
            }
        } else {
            MediaStep::Nothing
        }
    }
}

/// A count is reported once: a later poll that finds the same reports nothing.
pub proof fn same_media_is_reported_once(s: MediaServiceModel, count: u64)
    ensures
        !s.reported(count).reports(count),
{
}

/// What is reported to play and what is reported as the state always agree.
pub proof fn report_is_consistent(count: u64, now_ms: u64)
    ensures
        report(count, now_ms)[1] == (Event::MediaStateChanged {
            state: state_of(count),
            now_ms,
        }),
        count == 0 <==> state_of(count) == MediaState::Idle,
{
}

/// A browser window never counts as media: what browsers play is told by the session bus.
pub proof fn browsers_do_not_count(window: JsonModel, ignored: Seq<PatternModel>)
    requires
        names_browser_window(window_words(window)),
    ensures
        !window_counts(window, ignored),
{
}

} // verus!
