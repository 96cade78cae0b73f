//! Laws on what the services count and tell.

use vstd::prelude::*;

use super::app_inhibit::{
    app_backend, first_argument, hyprland_count, inhibits_app, inhibits_process, niri_app,
    niri_apps, niri_count, process_keys, window_classes, AppBackend, AppServiceModel, ProcEntry,
};
use super::dbus::{
    begins_stream, browser_tokens, edge, has_browser_stream, names_browser, rest_of_stream,
    stream_at, BusMessage, TrackerModel,
};
use super::json::JsonModel;
use super::media::{
    keeps_awake, media_backend, playing_count, report, window_counts, window_key, window_keys,
    window_names, window_words, MediaBackend, MediaServiceModel, MediaStep, MediaWatchModel,
};
use super::power::power_state;
use super::sets::senders_of;
use super::wayland::{signal_events, SeatSignal};
use crate::config::pattern::{some_matches, PatternModel};
use crate::events::{ActivityKind, Event, MediaState, PowerState};
use crate::text::laws::{ends_are_stripped, written_number_is_read};
use crate::text::numbers::signed_decimal;
use crate::text::split::{
    fields_of, fields_of_one, is_word, lines_of, only, pieces_not_empty, words_of_one,
};
use crate::text::strings::{
    has_part, has_prefix, joined, lowercase, lowered, part_stays, stripped_start, trimmed,
    trimmed_start, whole_is_a_part,
};

verus! {

// ---------------------------------------------------------------------------------------------
// Applications
// ---------------------------------------------------------------------------------------------

proof fn classes_are_those_that_inhibit(
    windows: Seq<JsonModel>,
    apps: Seq<PatternModel>,
    n: int,
    class: Seq<char>,
)
    requires
        n <= windows.len(),
    ensures
        window_classes(windows, apps, n).contains(class) <==> inhibits_app(apps, class) && exists|
            i: int,
        |
            0 <= i < n && (#[trigger] windows[i]).text_or_empty("class"@) == class,
    decreases n,
{
    if n > 0 {
        classes_are_those_that_inhibit(windows, apps, n - 1, class);
        if windows[n - 1].text_or_empty("class"@) == class {
            assert(windows[n - 1].text_or_empty("class"@) == class);
        }
    }
}

/// Hyprland's count is that of the classes of windows that some pattern means, however many windows
/// there are of each.
pub proof fn each_class_counts_once(
    windows: Seq<JsonModel>,
    apps: Seq<PatternModel>,
    classes: Set<Seq<char>>,
)
    requires
        forall|c: Seq<char>| #[trigger]
            classes.contains(c) <==> inhibits_app(apps, c) && exists|i: int|
                0 <= i < windows.len() && (#[trigger] windows[i]).text_or_empty("class"@) == c,
    ensures
        hyprland_count(Some(JsonModel::Array(windows)), apps) == Some(classes.len()),
        hyprland_count(None, apps) is None,
{
    let n = windows.len() as int;
    assert forall|c: Seq<char>| #[trigger]
        classes.contains(c) <==> window_classes(windows, apps, n).contains(c) by {
        classes_are_those_that_inhibit(windows, apps, n, c);
    }
    assert(classes =~= window_classes(windows, apps, n));
}

proof fn niri_apps_are_those_that_inhibit(
    all: Seq<Seq<char>>,
    apps: Seq<PatternModel>,
    n: int,
    id: Seq<char>,
)
    requires
        n <= all.len(),
    ensures
        niri_apps(all, apps, n).contains(id) <==> inhibits_app(apps, id) && exists|i: int|
            0 <= i < n && niri_app(#[trigger] all[i]) == Some(id),
    decreases n,
{
    if n > 0 {
        niri_apps_are_those_that_inhibit(all, apps, n - 1, id);
        if niri_app(all[n - 1]) == Some(id) {
            assert(niri_app(all[n - 1]) == Some(id));
        }
    }
}

/// Niri's count is that of the applications in its listing that some pattern means.
pub proof fn each_application_counts_once(
    text: Seq<char>,
    apps: Seq<PatternModel>,
    ids: Set<Seq<char>>,
)
    requires
        forall|c: Seq<char>| #[trigger]
            ids.contains(c) <==> inhibits_app(apps, c) && exists|i: int|
                0 <= i < lines_of(text).len() && niri_app(#[trigger] lines_of(text)[i]) == Some(c),
    ensures
        niri_count(text, apps) == ids.len(),
{
    let all = lines_of(text);
    let n = all.len() as int;
    assert forall|c: Seq<char>| #[trigger]
        ids.contains(c) <==> niri_apps(all, apps, n).contains(c) by {
        niri_apps_are_those_that_inhibit(all, apps, n, c);
    }
    assert(ids =~= niri_apps(all, apps, n));
}

/// The processes count by their names: those, and no others, that some entry is counted under.
pub proof fn each_process_name_counts_once(
    entries: Seq<ProcEntry>,
    apps: Seq<PatternModel>,
    n: int,
    name: Seq<char>,
)
    requires
        n <= entries.len(),
    ensures
        process_keys(entries, apps, n).contains(name) <==> exists|i: int|
            0 <= i < n && (#[trigger] entries[i]).key(apps) == Some(name),
    decreases n,
{
    if n > 0 {
        each_process_name_counts_once(entries, apps, n - 1, name);
        if entries[n - 1].key(apps) == Some(name) {
            assert(entries[n - 1].key(apps) == Some(name));
        }
    }
}

/// A process that no pattern means by its own name or by its command does not count, and one that
/// a pattern means by its own name does.
pub proof fn processes_count_by_name(e: ProcEntry, apps: Seq<PatternModel>)
    ensures
        apps.len() == 0 ==> e.key(apps) is None,
        e.comm is None && e.cmdline is None ==> e.key(apps) is None,
        (exists|i: int| 0 <= i < e.name@.len() && !('0' <= #[trigger] e.name@[i] <= '9'))
            ==> e.key(apps) is None,
        (forall|i: int| 0 <= i < e.name@.len() ==> '0' <= #[trigger] e.name@[i] <= '9') && (
        e.comm matches Some(c) && inhibits_process(apps, trimmed(c@))) ==> e.key(apps) is Some,
{
}

/// The two texts differ in the case of letters at most.
pub open spec fn alike(a: Seq<char>, b: Seq<char>) -> bool {
    lowered(a) == lowered(b)
}

proof fn last_field_is_behind_the_last_dot(head: Seq<char>, tail: Seq<char>)
    requires
        !tail.contains('.'),
    ensures
        fields_of(head + seq!['.'] + tail, '.').last() == tail,
    decreases tail.len(),
{
    let s = head + seq!['.'] + tail;
    if tail.len() == 0 {
        assert(s.drop_last() =~= head);
        assert(s.last() == '.');
        assert(tail =~= Seq::<char>::empty());
    } else {
        let t = tail.drop_last();
        assert(!t.contains('.')) by {
            if t.contains('.') {
                let i = choose|i: int| 0 <= i < t.len() && t[i] == '.';
                assert(tail[i] == '.');
            }
        }
        last_field_is_behind_the_last_dot(head, t);
        assert(s.drop_last() =~= head + seq!['.'] + t);
        assert(tail.contains(tail.last()));
        assert(s.last() == tail.last() && s.last() != '.');
        pieces_not_empty(s.drop_last(), only('.'));
        assert(t.push(tail.last()) =~= tail);
    }
}

/// A literal pattern means the application of that name, in whatever case, also where `.exe` stands
/// behind the name, and the one whose name stands behind the last dot of the pattern.
pub proof fn literal_means_the_application(
    apps: Seq<PatternModel>,
    k: int,
    s: Seq<char>,
    id: Seq<char>,
    head: Seq<char>,
)
    requires
        0 <= k < apps.len(),
        apps[k] == PatternModel::Literal(s),
        id.len() > 0,
    ensures
        alike(s, id) ==> inhibits_app(apps, id),
        alike(s, id) ==> inhibits_app(apps, id + seq!['.', 'e', 'x', 'e']),
        s == head + seq!['.'] + id && !id.contains('.') ==> inhibits_app(apps, id),
{
    reveal_strlit(".exe");
    let e = id + seq!['.', 'e', 'x', 'e'];
    assert(e.skip(e.len() - 4) =~= ".exe"@);
    assert(e.take(e.len() - 4) =~= id);
    if alike(s, id) {
        assert(apps[k].means_app(id) && apps[k].means_app(e));
    }
    if s == head + seq!['.'] + id && !id.contains('.') {
        last_field_is_behind_the_last_dot(head, id);
        assert(apps[k].means_app(id));
    }
}

/// Literal patterns without a dot mean no application of another name.
pub proof fn literals_mean_no_other_application(apps: Seq<PatternModel>, id: Seq<char>)
    requires
        forall|i: int|
            0 <= i < apps.len() ==> (#[trigger] apps[i] matches PatternModel::Literal(s) && !alike(
                s,
                id,
            ) && !s.contains('.') && !(id.len() >= 4 && alike(s, id.take(id.len() - 4)))),
    ensures
        !inhibits_app(apps, id),
{
    reveal_strlit(".exe");
    assert forall|i: int| 0 <= i < apps.len() implies !(#[trigger] apps[i]).means_app(id) by {
        let s = apps[i]->Literal_0;
        fields_of_one(s, '.');
        assert(fields_of(s, '.').last() == s);
    }
}

/// A line of Niri's listing names the application that stands in it between quotes.
pub proof fn listed_application_is_named(id: Seq<char>)
    requires
        id.len() > 0,
        id[0] != '"',
        id.last() != '"',
    ensures
        niri_app("  App ID: "@ + seq!['"'] + id + seq!['"']) == Some(id),
{
    reveal_strlit("  App ID: ");
    let head = "  App ID: "@;
    let quoted = seq!['"'] + id + seq!['"'];
    let line = head + seq!['"'] + id + seq!['"'];
    assert(line.take(head.len() as int) =~= head);
    assert(line.skip(head.len() as int) =~= quoted);
    assert(quoted[0] == '"' && quoted.last() == '"');
    assert(trimmed(quoted) == quoted);
    let one = Seq::new(1, |i: int| '"');
    assert(one =~= seq!['"']);
    assert(quoted =~= one + (id + one));
    let rest = id + one;
    ends_are_stripped('"', 1, id, 1);
    assert(rest.len() > 0 && rest[0] == id[0]);
    reveal_with_fuel(stripped_start, 3);
    assert(quoted.skip(1) =~= rest);
    assert(stripped_start(quoted, '"') == rest);
}

/// The command of a process is the first of its arguments.
pub proof fn first_argument_is_the_command(a: Seq<char>)
    requires
        is_word(a),
        !a.contains('\0'),
    ensures
        first_argument(a) == Some(a),
        first_argument(a + seq!['\0']) == Some(a),
{
    reveal(Seq::filter);
    reveal_with_fuel(joined, 2);
    let keep = |p: Seq<char>| p.len() > 0;
    fields_of_one(a, '\0');
    let z = a + seq!['\0'];
    assert(z.drop_last() =~= a);
    let f = fields_of(z, '\0');
    assert(f =~= seq![a, Seq::<char>::empty()]);
    let one = seq![a];
    assert(one.drop_last() =~= Seq::<Seq<char>>::empty());
    assert(one.filter(keep) =~= one);
    assert(f.drop_last() =~= one);
    assert(f.filter(keep) =~= one);
    words_of_one(a);
}

/// A literal pattern means the process of that name, in whatever case, and no other one.
pub proof fn literal_means_the_process(
    apps: Seq<PatternModel>,
    k: int,
    s: Seq<char>,
    name: Seq<char>,
)
    ensures
        0 <= k < apps.len() && apps[k] == PatternModel::Literal(s) && alike(s, name)
            ==> inhibits_process(apps, name),
        (forall|i: int|
            0 <= i < apps.len() ==> (#[trigger] apps[i] matches PatternModel::Literal(t) && !alike(
                t,
                name,
            ))) ==> !inhibits_process(apps, name),
{
    if 0 <= k < apps.len() && apps[k] == PatternModel::Literal(s) && alike(s, name) {
        assert(apps[k].means_process(name));
    }
}

/// The service polls when the interval has passed, and not before.
pub proof fn polls_keep_their_interval(a: AppServiceModel, m: MediaServiceModel, now_ms: u64)
    requires
        a.last_poll_ms + a.poll_interval_ms <= u64::MAX,
        m.last_poll_ms + m.poll_interval_ms <= u64::MAX,
    ensures
        a.is_due(now_ms) <==> now_ms >= a.last_poll_ms + a.poll_interval_ms,
        m.is_due(now_ms) <==> now_ms >= m.last_poll_ms + m.poll_interval_ms,
{
}

/// What a query finds counts. A query that fails changes nothing, and without rules no application
/// counts. The first count is told, and after that every other one.
pub proof fn counts_are_told(a: AppServiceModel, n: u64)
    ensures
        a.apps.len() > 0 ==> a.count_of(Some(n)) == n,
        a.apps.len() == 0 ==> a.count_of(Some(n)) == 0 && a.count_of(None) == 0,
        a.apps.len() > 0 && a.last_count == Some(n) ==> a.count_of(None) == n,
        a.apps.len() > 0 && a.last_count is None ==> a.count_of(None) == 0,
        a.last_count is None ==> a.reports(n),
        a.last_count is Some && a.last_count->0 != n ==> a.reports(n),
        a.last_count == Some(n) ==> (a.reports(n) <==> a.force_emit),
        a.forced().force_emit,
        a.forced().last_poll_ms == 0,
        a.forced().apps == a.apps,
        a.forced().last_count == a.last_count,
{
}

/// The compositor is known by its signature, its socket or the name of the desktop; without any of
/// them the processes are looked at, and no media is seen.
pub proof fn compositor_is_known(desktop: Option<Seq<char>>, socket: bool)
    ensures
        app_backend(true, desktop, socket) == AppBackend::Hyprland,
        app_backend(false, None, socket) == if socket {
            AppBackend::Niri
        } else {
            AppBackend::Proc
        },
        media_backend(true, desktop, socket) == MediaBackend::Hyprland,
        media_backend(false, desktop, true) == MediaBackend::Niri,
        media_backend(false, None, false) == MediaBackend::Nowhere,
{
}

// ---------------------------------------------------------------------------------------------
// Media
// ---------------------------------------------------------------------------------------------

proof fn windows_are_those_that_count(
    windows: Seq<JsonModel>,
    ignored: Seq<PatternModel>,
    n: int,
    key: Seq<char>,
)
    requires
        n <= windows.len(),
    ensures
        window_keys(windows, ignored, n).contains(key) <==> exists|i: int|
            0 <= i < n && window_key(#[trigger] windows[i]) == key && window_counts(
                windows[i],
                ignored,
            ),
    decreases n,
{
    if n > 0 {
        windows_are_those_that_count(windows, ignored, n - 1, key);
        if window_key(windows[n - 1]) == key && window_counts(windows[n - 1], ignored) {
            assert(window_key(windows[n - 1]) == key);
        }
    }
}

/// Media plays in as many windows as count, each once.
pub proof fn each_window_counts_once(
    windows: Seq<JsonModel>,
    ignored: Seq<PatternModel>,
    keys: Set<Seq<char>>,
)
    requires
        forall|k: Seq<char>| #[trigger]
            keys.contains(k) <==> exists|i: int|
                0 <= i < windows.len() && window_key(#[trigger] windows[i]) == k && window_counts(
                    windows[i],
                    ignored,
                ),
    ensures
        playing_count(Some(JsonModel::Array(windows)), ignored) == Some(keys.len()),
        playing_count(None, ignored) is None,
{
    let n = windows.len() as int;
    assert forall|k: Seq<char>| #[trigger]
        keys.contains(k) <==> window_keys(windows, ignored, n).contains(k) by {
        windows_are_those_that_count(windows, ignored, n, k);
    }
    assert(keys =~= window_keys(windows, ignored, n));
}

/// Windows are told apart by their addresses, and without those by their processes, whatever they
/// are called.
pub proof fn windows_are_told_apart(w: JsonModel, v: JsonModel, a: Seq<char>, m: i64, n: i64)
    requires
        0 <= m <= 0x7fff_ffff,
        0 <= n <= 0x7fff_ffff,
    ensures
        w.text("address"@) == Some(a) && v.text("address"@) == Some(a) ==> window_key(w)
            == window_key(v),
        w.text("address"@) is None && v.text("address"@) is None && (w.field(
            "pid"@,
        ) matches Some(JsonModel::Number { signed: Some(x), .. }) && x == m) && (v.field(
            "pid"@,
        ) matches Some(JsonModel::Number { signed: Some(y), .. }) && y == n) ==> (window_key(w)
            == window_key(v) <==> m == n),
        w.text("address"@) == Some(a) && v.text("address"@) is None && (v.field(
            "pid"@,
        ) matches Some(JsonModel::Number { signed: Some(y), .. })) ==> window_key(w) != window_key(
            v,
        ),
{
    reveal_strlit("addr:");
    reveal_strlit("pid:");
    written_number_is_read(m as nat, 0);
    written_number_is_read(n as nat, 0);
    let x = "pid:"@ + signed_decimal(m as int);
    let y = "pid:"@ + signed_decimal(n as int);
    assert(x.skip(4) =~= signed_decimal(m as int));
    assert(y.skip(4) =~= signed_decimal(n as int));
    assert("addr:"@[0] == 'a' && "pid:"@[0] == 'p');
    if w.text("address"@) is Some {
        assert(window_key(w)[0] == 'a');
    }
    if v.text("address"@) is None && (v.field("pid"@) matches Some(
        JsonModel::Number { signed: Some(z), .. },
    )) {
        assert(window_key(v)[0] == 'p');
    }
}

/// A window keeps the session from idling if one of its fields says so, and not if none does.
pub proof fn window_says_that_it_keeps_awake(w: JsonModel, n: i64)
    ensures
        w.field("inhibitingIdle"@) == Some(JsonModel::Bool(true)) ==> keeps_awake(w),
        w.field("inhibitingidle"@) == Some(JsonModel::Bool(true)) ==> keeps_awake(w),
        w.field("idleInhibit"@) == Some(JsonModel::Bool(true)) ==> keeps_awake(w),
        w.field("idle_inhibit"@) == Some(JsonModel::Bool(true)) ==> keeps_awake(w),
        w.field("isIdleInhibited"@) == Some(JsonModel::Bool(true)) ==> keeps_awake(w),
        w.field("is_idle_inhibited"@) == Some(JsonModel::Bool(true)) ==> keeps_awake(w),
        w.field("idleInhibitor"@) == Some(JsonModel::Bool(true)) ==> keeps_awake(w),
        w.field("inhibitingIdle"@) is None && w.field("inhibitingidle"@) is None && w.field(
            "idleInhibit"@,
        ) is None && w.field("idle_inhibit"@) is None && w.field("isIdleInhibited"@) is None
            && w.field("is_idle_inhibited"@) is None && w.field("idleInhibitor"@) is None
            ==> !keeps_awake(w),
        (JsonModel::Bool(true)).truthy(),
        !(JsonModel::Bool(false)).truthy(),
        !JsonModel::Null.truthy(),
        (JsonModel::Number { signed: Some(n), unsigned: None }).truthy() <==> n > 0,
{
}

/// The window of a browser does not count, nor does one that is to be ignored or that keeps nobody
/// awake; any other one does. A window is known by its class and its title, those of now and those
/// of its start.
pub proof fn windows_count_unless_they_are_browsers(w: JsonModel, ignored: Seq<PatternModel>)
    ensures
        has_part(window_words(w), "firefox"@) ==> !window_counts(w, ignored),
        has_part(window_words(w), "chromium"@) ==> !window_counts(w, ignored),
        has_part(window_words(w), "google-chrome"@) ==> !window_counts(w, ignored),
        has_part(window_words(w), "chrome"@) ==> !window_counts(w, ignored),
        has_part(window_words(w), "brave"@) ==> !window_counts(w, ignored),
        has_part(window_words(w), "vivaldi"@) ==> !window_counts(w, ignored),
        has_part(window_words(w), "microsoft-edge"@) ==> !window_counts(w, ignored),
        has_part(window_words(w), "msedge"@) ==> !window_counts(w, ignored),
        has_part(window_words(w), "opera"@) ==> !window_counts(w, ignored),
        has_part(window_words(w), "tor browser"@) ==> !window_counts(w, ignored),
        has_part(window_words(w), "zen browser"@) ==> !window_counts(w, ignored),
        has_part(window_words(w), "waterfox"@) ==> !window_counts(w, ignored),
        has_part(window_words(w), "librewolf"@) ==> !window_counts(w, ignored),
        !keeps_awake(w) ==> !window_counts(w, ignored),
        some_matches(ignored, window_words(w)) ==> !window_counts(w, ignored),
        keeps_awake(w) && window_counts(w, Seq::empty()) && !some_matches(ignored, window_words(w))
            ==> window_counts(w, ignored),
        has_part(window_names(w), w.text_or_empty("class"@)),
        has_part(window_names(w), w.text_or_empty("initialClass"@)),
        has_part(window_names(w), w.text_or_empty("title"@)),
        has_part(window_names(w), w.text_or_empty("initialTitle"@)),
{
    let a = w.text_or_empty("class"@);
    let b = w.text_or_empty("initialClass"@);
    let c = w.text_or_empty("title"@);
    let d = w.text_or_empty("initialTitle"@);
    let s = " "@;
    whole_is_a_part(a);
    whole_is_a_part(b);
    whole_is_a_part(c);
    whole_is_a_part(d);
    part_stays(a, s, a);
    part_stays(a + s, b, a);
    part_stays(a + s, b, b);
    part_stays(a + s + b, s, a);
    part_stays(a + s + b, s, b);
    part_stays(a + s + b + s, c, a);
    part_stays(a + s + b + s, c, b);
    part_stays(a + s + b + s, c, c);
    part_stays(a + s + b + s + c, s, a);
    part_stays(a + s + b + s + c, s, b);
    part_stays(a + s + b + s + c, s, c);
    part_stays(a + s + b + s + c + s, d, a);
    part_stays(a + s + b + s + c + s, d, b);
    part_stays(a + s + b + s + c + s, d, c);
    part_stays(a + s + b + s + c + s, d, d);
}

/// A text says yes unless it is blank or one of the words for no; a list says yes if one of its
/// values does.
pub proof fn values_say_yes_or_no(t: Seq<char>, a: Seq<JsonModel>, i: int)
    ensures
        ({
            let low = lowercase(trimmed(t));
            JsonModel::Str(t).truthy() <==> low.len() > 0 && low != "0"@ && low != "false"@ && low
                != "off"@ && low != "none"@ && low != "no"@
        }),
        0 <= i < a.len() && a[i].truthy() ==> JsonModel::Array(a).truthy(),
        (forall|k: int| 0 <= k < a.len() ==> !(#[trigger] a[k]).truthy()) ==> !JsonModel::Array(
            a,
        ).truthy(),
{
    let all = JsonModel::Array(a);
    if 0 <= i < a.len() && a[i].truthy() {
        assert(all->Array_0[i].truthy());
    }
}

/// What a query finds plays; where nothing can be asked, nothing does. The state and the count that
/// are told agree.
pub proof fn media_is_told(m: MediaServiceModel, n: u64, now_ms: u64)
    ensures
        m.backend == MediaBackend::Hyprland ==> m.count_of(Some(n)) == n,
        m.backend != MediaBackend::Hyprland ==> m.count_of(Some(n)) == 0,
        m.backend == MediaBackend::Hyprland && m.last_count == Some(n) ==> m.count_of(None) == n,
        m.backend == MediaBackend::Hyprland && m.last_count is None ==> m.count_of(None) == 0,
        m.last_count is None ==> m.reports(n),
        m.last_count is Some && m.last_count->0 != n ==> m.reports(n),
        m.reported(n).last_count == Some(n),
        !m.reported(n).force_emit,
        m.forced().reports(n),
        n > 0 ==> report(n, now_ms) == seq![
            Event::MediaInhibitorCount { count: n, now_ms },
            Event::MediaStateChanged { state: MediaState::PlayingLocal, now_ms },
        ],
        report(0, now_ms) == seq![
            Event::MediaInhibitorCount { count: 0, now_ms },
            Event::MediaStateChanged { state: MediaState::Idle, now_ms },
        ],
{
}

/// Switched on, the service polls; switched off, it tells that nothing plays. Rules that stay need
/// nothing, and other rules a poll, but for the ones that come with the start.
pub proof fn media_follows_the_rules(w: MediaWatchModel, epoch: u64)
    ensures
        !w.last_enabled ==> w.step(epoch, true).1 == MediaStep::Poll,
        w.last_enabled ==> w.step(epoch, false).1 == MediaStep::SeedIdle,
        !w.last_enabled ==> w.step(epoch, false).1 == MediaStep::Nothing,
        w.last_enabled && epoch == w.last_epoch ==> w.step(epoch, true).1 == MediaStep::Nothing,
        w.last_enabled && epoch != w.last_epoch && !w.ignore_first_epoch_bump ==> w.step(
            epoch,
            true,
        ).1 == MediaStep::Poll,
        w.last_enabled && epoch != w.last_epoch && w.ignore_first_epoch_bump ==> w.step(
            epoch,
            true,
        ).1 == MediaStep::Nothing && !w.step(epoch, true).0.ignore_first_epoch_bump,
        w.step(epoch, true).0.last_enabled && w.step(epoch, true).0.last_epoch == epoch,
        !w.step(epoch, false).0.last_enabled && w.step(epoch, false).0.last_epoch == epoch,
{
}

// ---------------------------------------------------------------------------------------------
// The session bus
// ---------------------------------------------------------------------------------------------

/// Somebody inhibits while a cookie or a handle is out.
pub proof fn cookies_and_handles_inhibit(
    t: TrackerModel,
    sender: Seq<char>,
    cookie: u32,
    handle: Seq<char>,
)
    ensures
        t.cookies.contains((sender, cookie)) ==> t.inhibits(),
        t.handles.contains((sender, handle)) ==> t.inhibits(),
        (forall|p: (Seq<char>, u32)| !#[trigger] t.cookies.contains(p)) && (forall|
            p: (Seq<char>, Seq<char>),
        |
            !#[trigger] t.handles.contains(p)) ==> !t.inhibits(),
{
    if t.cookies.contains((sender, cookie)) {
        assert(senders_of(t.cookies).contains(sender));
        assert(t.senders().contains(sender));
    }
    if t.handles.contains((sender, handle)) {
        assert(senders_of(t.handles).contains(sender));
        assert(t.senders().contains(sender));
    }
    if (forall|p: (Seq<char>, u32)| !#[trigger] t.cookies.contains(p)) && (forall|
        p: (Seq<char>, Seq<char>),
    |
        !#[trigger] t.handles.contains(p)) {
        assert forall|s: Seq<char>| !t.senders().contains(s) by {
            if senders_of(t.cookies).contains(s) {
                let p = choose|p: (Seq<char>, u32)| #[trigger] t.cookies.contains(p) && p.0 == s;
                assert(t.cookies.contains(p));
            }
            if senders_of(t.handles).contains(s) {
                let p = choose|p: (Seq<char>, Seq<char>)| #[trigger]
                    t.handles.contains(p) && p.0 == s;
                assert(t.handles.contains(p));
            }
        }
        assert(t.senders() =~= Set::<Seq<char>>::empty());
    }
}

/// The first inhibit is told as activity, the end of the last one as its end, and nothing else is
/// told.
pub proof fn first_and_last_inhibit_are_told(a: TrackerModel, b: TrackerModel, now_ms: u64)
    ensures
        !a.inhibits() && b.inhibits() ==> edge(a, b, now_ms) == Some(
            Event::BrowserActivity { now_ms },
        ),
        a.inhibits() && !b.inhibits() ==> edge(a, b, now_ms) == Some(
            Event::BrowserInactive { now_ms },
        ),
        a.inhibits() == b.inhibits() ==> edge(a, b, now_ms) is None,
{
}

/// An inhibit by the older interfaces holds from the answer with a cookie until that cookie is
/// given back: call, answer and return leave nothing behind.
pub proof fn cookie_inhibits_until_given_back(
    t: TrackerModel,
    call: BusMessage,
    answer: BusMessage,
    back: BusMessage,
    sender: String,
    serial: u32,
    cookie: u32,
)
    requires
        call matches BusMessage::Call { sender: Some(s), serial: n, interface, member, .. } && s
            == sender && n == serial && (lowered(interface@) == "org.freedesktop.screensaver"@
            || lowered(interface@) == "org.gnome.sessionmanager"@) && lowered(member@)
            == "inhibit"@,
        answer matches BusMessage::Return {
            destination: Some(d),
            reply_serial: Some(n),
            number,
            ..
        } && d == sender && n == serial && number == Some(cookie),
        back matches BusMessage::Call { sender: Some(s), interface, member, number, .. } && s
            == sender && (lowered(interface@) == "org.freedesktop.screensaver"@ || lowered(
            interface@,
        ) == "org.gnome.sessionmanager"@) && lowered(member@) == "uninhibit"@ && number == Some(
            cookie,
        ),
        !t.legacy_calls.contains((sender@, serial)),
        !t.cookies.contains((sender@, cookie)),
    ensures
        ({
            let asked = t.after(call.means(), false);
            let given = asked.after(answer.means(), false);
            &&& asked.cookies == t.cookies
            &&& asked.handles == t.handles
            &&& given.inhibits()
            &&& given.after(back.means(), false) == t
        }),
{
    reveal_strlit("inhibit");
    reveal_strlit("uninhibit");
    assert("inhibit"@.len() != "uninhibit"@.len());
    let asked = t.after(call.means(), false);
    let given = asked.after(answer.means(), false);
    assert(asked.legacy_calls.contains((sender@, serial)));
    assert(given.cookies.contains((sender@, cookie)));
    cookies_and_handles_inhibit(given, sender@, cookie, sender@);
    assert(given.after(back.means(), false) =~= t);
}

/// An inhibit by the portal holds from the answer with a handle until that request is closed, which
/// is passed over while a browser captures a source.
pub proof fn handle_inhibits_until_closed(
    t: TrackerModel,
    call: BusMessage,
    answer: BusMessage,
    close: BusMessage,
    sender: String,
    serial: u32,
    handle: String,
)
    requires
        call matches BusMessage::Call { sender: Some(s), serial: n, interface, member, .. } && s
            == sender && n == serial && lowered(interface@) == "org.freedesktop.portal.inhibit"@
            && lowered(member@) == "inhibit"@,
        answer matches BusMessage::Return {
            destination: Some(d),
            reply_serial: Some(n),
            number,
            object,
        } && d == sender && n == serial && number is None && object == Some(handle),
        close matches BusMessage::Call { sender: Some(s), interface, member, path, .. } && s
            == sender && lowered(interface@) == "org.freedesktop.portal.request"@ && lowered(
            member@,
        ) == "close"@ && path == Some(handle),
        !t.portal_calls.contains((sender@, serial)),
        !t.handles.contains((sender@, handle@)),
    ensures
        ({
            let asked = t.after(call.means(), false);
            let given = asked.after(answer.means(), false);
            &&& asked.cookies == t.cookies
            &&& asked.handles == t.handles
            &&& given.inhibits()
            &&& given.after(close.means(), true) == given
            &&& given.after(close.means(), false) == t
        }),
{
    reveal_strlit("org.freedesktop.portal.inhibit");
    reveal_strlit("org.freedesktop.portal.request");
    reveal_strlit("org.freedesktop.screensaver");
    reveal_strlit("org.gnome.sessionmanager");
    assert("org.freedesktop.portal.inhibit"@.len() == 30);
    assert("org.freedesktop.portal.request"@.len() == 30);
    assert("org.freedesktop.screensaver"@.len() == 27);
    assert("org.gnome.sessionmanager"@.len() == 24);
    assert("org.freedesktop.portal.inhibit"@[23] == 'i');
    assert("org.freedesktop.portal.request"@[23] == 'r');
    let asked = t.after(call.means(), false);
    let given = asked.after(answer.means(), false);
    assert(asked.portal_calls.contains((sender@, serial)));
    assert(given.handles.contains((sender@, handle@)));
    cookies_and_handles_inhibit(given, sender@, 0, handle@);
    assert(given.after(close.means(), false) =~= t);
}

/// A call that fails is not waited for, and inhibits nothing.
pub proof fn failed_call_is_forgotten(t: TrackerModel, m: BusMessage, sender: String, serial: u32)
    requires
        m == (BusMessage::Error { destination: Some(sender), reply_serial: Some(serial) }),
    ensures
        ({
            let u = t.after(m.means(), false);
            &&& !u.legacy_calls.contains((sender@, serial))
            &&& !u.portal_calls.contains((sender@, serial))
            &&& u.cookies == t.cookies
            &&& u.handles == t.handles
        }),
{
}

/// Who leaves the bus takes along all that they had there.
pub proof fn departure_takes_all_along(
    t: TrackerModel,
    m: BusMessage,
    sender: Seq<char>,
    n: u32,
    handle: Seq<char>,
)
    requires
        m matches BusMessage::Signal { interface, member, names: Some(names) } && lowered(
            interface@,
        ) == "org.freedesktop.dbus"@ && lowered(member@) == "nameownerchanged"@ && names.0@
            == sender && names.2@.len() == 0,
        sender.len() > 0,
        sender[0] == ':',
    ensures
        ({
            let u = t.after(m.means(), false);
            &&& !u.cookies.contains((sender, n))
            &&& !u.legacy_calls.contains((sender, n))
            &&& !u.portal_calls.contains((sender, n))
            &&& !u.handles.contains((sender, handle))
        }),
{
    reveal_strlit(":");
    assert(sender.take(1) =~= ":"@);
}

/// What the name of a browser has in it.
pub open spec fn in_a_browsers_name(w: Seq<char>) -> bool {
    ||| w == "firefox"@
    ||| w == "vivaldi"@
    ||| w == "chromium"@
    ||| w == "google-chrome"@
    ||| w == "google chrome"@
    ||| w == "brave"@
    ||| w == "librewolf"@
    ||| w == "waterfox"@
    ||| w == "zen browser"@
    ||| w == "zen-browser"@
    ||| w == "msedge"@
    ||| w == "microsoft-edge"@
    ||| w == "opera"@
}

/// A stream belongs to a browser if a line of its description names one, in whatever case.
pub proof fn stream_of_a_browser_is_found(text: Seq<char>, i: int, w: Seq<char>)
    requires
        0 <= i,
        i + 1 < lines_of(text).len(),
        has_prefix(lines_of(text)[i], "Source Output #"@),
        !begins_stream(lines_of(text)[i + 1]),
        in_a_browsers_name(w),
        has_part(lowered(lines_of(text)[i + 1]), w),
    ensures
        has_browser_stream(text),
{
    reveal_strlit("Source Output #");
    let all = lines_of(text);
    let a = all[i];
    let b = all[i + 1];
    assert(a.take("Source Output #"@.len() as int)[0] == a[0]);
    assert("Source Output #"@[0] == 'S');
    assert(trimmed_start(a) == a);
    assert(begins_stream(a));
    let tail = rest_of_stream(all, i + 2);
    let whole = stream_at(all, i);
    assert(rest_of_stream(all, i + 1) == b + "\n"@ + tail);
    let la = lowered(a + "\n"@);
    let lb = lowered(b);
    let lt = lowered("\n"@ + tail);
    assert(lowered(whole) =~= la + (lb + lt));
    part_stays(lb, lt, w);
    part_stays(la, lb + lt, w);
    let known = browser_tokens();
    assert(known[0] == "firefox"@ && known[1] == "vivaldi"@
        && known[2] == "chromium"@ && known[3] == "google-chrome"@
        && known[4] == "google chrome"@ && known[5] == "brave"@
        && known[6] == "librewolf"@ && known[7] == "waterfox"@
        && known[8] == "zen browser"@ && known[9] == "zen-browser"@
        && known[10] == "msedge"@ && known[11] == "microsoft-edge"@
        && known[12] == "opera"@);
    let k = choose|k: int| 0 <= k < known.len() && known[k] == w;
    assert(has_part(lowered(whole), browser_tokens()[k]));
    assert(names_browser(whole));
}

// ---------------------------------------------------------------------------------------------
// Power and the seat
// ---------------------------------------------------------------------------------------------

/// The source of power is told as it is.
pub proof fn power_is_told(on_ac: bool)
    ensures
        power_state(on_ac) == PowerState::OnAC <==> on_ac,
        power_state(on_ac) == PowerState::OnBattery <==> !on_ac,
{
}

/// The pointer and the keys are activity, and so is the end of an idle time; its begin is none.
pub proof fn seat_tells_of_activity(sig: SeatSignal, now_ms: u64)
    ensures
        signal_events(sig, now_ms).contains(
            Event::UserActivity { kind: ActivityKind::Any, now_ms },
        ) <==> sig == SeatSignal::Pointer || sig == SeatSignal::Key || sig == SeatSignal::Resumed,
        signal_events(sig, now_ms).contains(Event::CompositorIdled { now_ms }) <==> sig
            == SeatSignal::Idled,
        signal_events(sig, now_ms).contains(Event::CompositorResumed { now_ms }) <==> sig
            == SeatSignal::Resumed,
{
    let all = signal_events(sig, now_ms);
    if all.len() > 0 {
        assert(all.contains(all[0]));
        assert(all.contains(all[all.len() - 1]));
    }
}

} // verus!
