//! Inhibits on the session bus, and the signals of the session manager.

use vstd::prelude::*;

use super::sets::{senders_of, without_sender, HandleSet, SerialSet};
use crate::events::Event;
use crate::text::split::{lines, lines_of};
use crate::text::strings::{
    contains, has_part, has_prefix, lowered, opt_view, starts_with, str_eq, to_ascii_lower,
    trim_start, trimmed_start, views,
};

verus! {

/// Sink for pushing events into the manager loop.
/// Implement this for whatever channel/queue you're using.
pub trait EventSink: Send + Sync {
    fn push(&self, ev: Event);
}

// ---------------------------------------------------------------------------------------------
// The tracker
// ---------------------------------------------------------------------------------------------

/// Who inhibits. The older interfaces answer a call with a cookie, the portal with the handle of
/// a request; until the answer comes, the call is pending.
#[derive(Debug)]
pub struct DbusInhibitTracker {
    legacy_cookies: SerialSet,
    portal_handles: HandleSet,
    pending_legacy_calls: SerialSet,
    pending_portal_calls: SerialSet,
}

/// What stands for a [`DbusInhibitTracker`] in contracts: pairs of a sender and what it holds.
#[verifier::ext_equal]
pub struct TrackerModel {
    pub cookies: Set<(Seq<char>, u32)>,
    pub handles: Set<(Seq<char>, Seq<char>)>,
    pub legacy_calls: Set<(Seq<char>, u32)>,
    pub portal_calls: Set<(Seq<char>, u32)>,
}

impl View for DbusInhibitTracker {
    type V = TrackerModel;

    closed spec fn view(&self) -> TrackerModel {
        TrackerModel {
            cookies: self.legacy_cookies@,
            handles: self.portal_handles@,
            legacy_calls: self.pending_legacy_calls@,
            portal_calls: self.pending_portal_calls@,
        }
    }
}

impl TrackerModel {
    pub open spec fn empty() -> TrackerModel {
        TrackerModel {
            cookies: Set::empty(),
            handles: Set::empty(),
            legacy_calls: Set::empty(),
            portal_calls: Set::empty(),
        }
    }

    /// The senders that inhibit.
    pub open spec fn senders(self) -> Set<Seq<char>> {
        senders_of(self.cookies).union(senders_of(self.handles))
    }

    /// An answer with a cookie: it counts if the call is pending.
    pub open spec fn with_cookie(self, sender: Seq<char>, serial: u32, cookie: u32) -> TrackerModel {
        if self.legacy_calls.contains((sender, serial)) {
            TrackerModel {
                legacy_calls: self.legacy_calls.remove((sender, serial)),
                cookies: self.cookies.insert((sender, cookie)),
                ..self
            }
        } else {
            self
        }
    }

    /// An answer with a handle: it counts if the call is pending.
    pub open spec fn with_handle(
        self,
        sender: Seq<char>,
        serial: u32,
        handle: Seq<char>,
    ) -> TrackerModel {
        if self.portal_calls.contains((sender, serial)) {
            TrackerModel {
                portal_calls: self.portal_calls.remove((sender, serial)),
                handles: self.handles.insert((sender, handle)),
                ..self
            }
        } else {
            self
        }
    }

    /// A sender leaves the bus.
    pub open spec fn without(self, sender: Seq<char>) -> TrackerModel {
        TrackerModel {
            cookies: without_sender(self.cookies, sender),
            handles: without_sender(self.handles, sender),
            legacy_calls: without_sender(self.legacy_calls, sender),
            portal_calls: without_sender(self.portal_calls, sender),
        }
    }
}

impl DbusInhibitTracker {
    pub fn new() -> (r: Self)
        ensures
            r@ == TrackerModel::empty(),
    {
        DbusInhibitTracker {
            legacy_cookies: SerialSet::new(),
            portal_handles: HandleSet::new(),
            pending_legacy_calls: SerialSet::new(),
            pending_portal_calls: SerialSet::new(),
        }
    }

    /// How many senders inhibit.
    pub fn total(&self) -> (r: usize)
        ensures
            r == self@.senders().len(),
            self@.senders().finite(),
            r > 0 <==> self@.senders() != Set::<Seq<char>>::empty(),
    {
        let mut senders: Vec<String> = Vec::new();
        assert(views(senders@).to_set() =~= Set::<Seq<char>>::empty());
        self.legacy_cookies.list_senders(&mut senders);
        self.portal_handles.list_senders(&mut senders);
        proof {
            assert(views(senders@).to_set() =~= self@.senders());
            views(senders@).unique_seq_to_set();
            vstd::seq_lib::seq_to_set_is_finite(views(senders@));
            if senders@.len() == 0 {
                assert(views(senders@).to_set() =~= Set::<Seq<char>>::empty());
            } else {
                assert(views(senders@).to_set().contains(views(senders@)[0]));
            }
        }
        senders.len()
    }

    pub fn mark_legacy_call(&mut self, sender: &str, serial: u32)
        ensures
            final(self)@ == (TrackerModel {
                legacy_calls: old(self)@.legacy_calls.insert((sender@, serial)),
                ..old(self)@
            }),
    {
        let _ = self.pending_legacy_calls.insert(sender, serial);
    }

    pub fn clear_legacy_call(&mut self, sender: &str, serial: u32)
        ensures
            final(self)@ == (TrackerModel {
                legacy_calls: old(self)@.legacy_calls.remove((sender@, serial)),
                ..old(self)@
            }),
    {
        let _ = self.pending_legacy_calls.remove(sender, serial);
    }

    /// Takes the cookie that answers a pending call; tells whether that added one.
    pub fn confirm_legacy_cookie(&mut self, sender: &str, reply_serial: u32, cookie: u32) -> (r:
        bool)
        ensures
            final(self)@ == old(self)@.with_cookie(sender@, reply_serial, cookie),
            r == (old(self)@.legacy_calls.contains((sender@, reply_serial))
                && !old(self)@.cookies.contains((sender@, cookie))),
    {
        if !self.pending_legacy_calls.has(sender, reply_serial) {
            return false;
        }
        self.clear_legacy_call(sender, reply_serial);
        self.legacy_cookies.insert(sender, cookie)
    }

    /// Takes a cookie back; tells whether it was held.
    pub fn clear_legacy_cookie(&mut self, sender: &str, cookie: u32) -> (r: bool)
        ensures
            final(self)@ == (TrackerModel {
                cookies: old(self)@.cookies.remove((sender@, cookie)),
                ..old(self)@
            }),
            r == old(self)@.cookies.contains((sender@, cookie)),
    {
        self.legacy_cookies.remove(sender, cookie)
    }

    /// Holds the cookie 0 for a sender.
    pub fn mark_legacy_active(&mut self, sender: &str)
        ensures
            final(self)@ == (TrackerModel {
                cookies: old(self)@.cookies.insert((sender@, 0)),
                ..old(self)@
            }),
    {
        let _ = self.legacy_cookies.insert(sender, 0);
    }

    /// Takes the cookie 0 of a sender back.
    pub fn clear_legacy(&mut self, sender: &str)
        ensures
            final(self)@ == (TrackerModel {
                cookies: old(self)@.cookies.remove((sender@, 0)),
                ..old(self)@
            }),
    {
        let _ = self.clear_legacy_cookie(sender, 0);
    }

    pub fn mark_portal_call(&mut self, sender: &str, serial: u32)
        ensures
            final(self)@ == (TrackerModel {
                portal_calls: old(self)@.portal_calls.insert((sender@, serial)),
                ..old(self)@
            }),
    {
        let _ = self.pending_portal_calls.insert(sender, serial);
    }

    pub fn clear_portal_call(&mut self, sender: &str, serial: u32)
        ensures
            final(self)@ == (TrackerModel {
                portal_calls: old(self)@.portal_calls.remove((sender@, serial)),
                ..old(self)@
            }),
    {
        let _ = self.pending_portal_calls.remove(sender, serial);
    }

    /// Takes the handle that answers a pending call; tells whether that added one.
    pub fn confirm_portal_handle(&mut self, sender: &str, reply_serial: u32, handle: &str) -> (r:
        bool)
        ensures
            final(self)@ == old(self)@.with_handle(sender@, reply_serial, handle@),
            r == (old(self)@.portal_calls.contains((sender@, reply_serial))
                && !old(self)@.handles.contains((sender@, handle@))),
    {
        if !self.pending_portal_calls.has(sender, reply_serial) {
            return false;
        }
        self.clear_portal_call(sender, reply_serial);
        self.portal_handles.insert(sender, handle)
    }

    /// Takes a handle back; tells whether it was held.
    pub fn clear_portal_handle(&mut self, sender: &str, handle: &str) -> (r: bool)
        ensures
            final(self)@ == (TrackerModel {
                handles: old(self)@.handles.remove((sender@, handle@)),
                ..old(self)@
            }),
            r == old(self)@.handles.contains((sender@, handle@)),
    {
        self.portal_handles.remove(sender, handle)
    }

    /// Notes a portal call of a sender, under the serial 0.
    pub fn mark_portal_active(&mut self, sender: &str)
        ensures
            final(self)@ == (TrackerModel {
                portal_calls: old(self)@.portal_calls.insert((sender@, 0)),
                ..old(self)@
            }),
    {
        self.mark_portal_call(sender, 0);
    }

    /// Takes one handle of a sender back, if it holds any.
    pub fn clear_portal(&mut self, sender: &str)
        ensures
            final(self)@.handles == old(self)@.handles && !senders_of(
                old(self)@.handles,
            ).contains(sender@) || exists|h: Seq<char>|
                old(self)@.handles.contains((sender@, h)) && #[trigger] old(self)@.handles.remove(
                    (sender@, h),
                ) == final(self)@.handles,
            final(self)@ == (TrackerModel { handles: final(self)@.handles, ..old(self)@ }),
    {
        let _ = self.clear_any_portal_handle(sender);
    }

    /// Takes one handle of a sender back, if it holds any; tells whether it did.
    pub fn clear_any_portal_handle(&mut self, sender: &str) -> (r: bool)
        ensures
            r == senders_of(old(self)@.handles).contains(sender@),
            !r ==> final(self)@ == old(self)@,
            r ==> exists|h: Seq<char>|
                old(self)@.handles.contains((sender@, h)) && #[trigger] old(self)@.handles.remove(
                    (sender@, h),
                ) == final(self)@.handles,
            final(self)@ == (TrackerModel { handles: final(self)@.handles, ..old(self)@ }),
    {
        match self.portal_handles.any_of(sender) {
            None => false,
            Some(h) => {
                assert(senders_of(self@.handles).contains(sender@)) by {
                    assert(self@.handles.contains((sender@, h@)));
                }
                let _ = self.clear_portal_handle(sender, h.as_str());
                assert(old(self)@.handles.remove((sender@, h@)) == self@.handles);
                true
            },
        }
    }

    /// Forgets a sender.
    pub fn remove_sender(&mut self, sender: &str)
        ensures
            final(self)@ == old(self)@.without(sender@),
    {
        self.legacy_cookies.remove_sender(sender);
        self.portal_handles.remove_sender(sender);
        self.pending_legacy_calls.remove_sender(sender);
        self.pending_portal_calls.remove_sender(sender);
    }
}

impl Default for DbusInhibitTracker {
    fn default() -> (r: Self)
        ensures
            r@ == TrackerModel::empty(),
    {
        DbusInhibitTracker::new()
    }
}

// ---------------------------------------------------------------------------------------------
// Messages
// ---------------------------------------------------------------------------------------------

/// What a message on the session bus says, as far as it matters here. What the message does not
/// carry, or carries in another form, is `None`.
#[derive(Debug)]
#[allow(inconsistent_fields)]
pub enum BusMessage {
    Call {
        sender: Option<String>,
        serial: u32,
        interface: String,
        member: String,
        path: Option<String>,
        /// The body, where it is one number.
        number: Option<u32>,
    },
    Return {
        destination: Option<String>,
        reply_serial: Option<u32>,
        /// The body, where it is one number.
        number: Option<u32>,
        /// The body, where it is the path of an object.
        object: Option<String>,
    },
    Error { destination: Option<String>, reply_serial: Option<u32> },
    Signal {
        interface: String,
        member: String,
        /// The body, where it is three strings.
        names: Option<(String, String, String)>,
    },
}

/// What a message means to the tracker.
#[derive(Debug)]
pub enum Meaning {
    Nothing,
    LegacyCall { sender: String, serial: u32 },
    LegacyRelease { sender: String, cookie: u32 },
    PortalCall { sender: String, serial: u32 },
    PortalClose { sender: String, handle: String },
    LegacyReply { sender: String, serial: u32, cookie: u32 },
    PortalReply { sender: String, serial: u32, handle: String },
    Failure { sender: String, serial: u32 },
    SenderGone { sender: String },
}

/// What stands for a [`Meaning`] in contracts.
pub enum MeaningModel {
    Nothing,
    LegacyCall { sender: Seq<char>, serial: u32 },
    LegacyRelease { sender: Seq<char>, cookie: u32 },
    PortalCall { sender: Seq<char>, serial: u32 },
    PortalClose { sender: Seq<char>, handle: Seq<char> },
    LegacyReply { sender: Seq<char>, serial: u32, cookie: u32 },
    PortalReply { sender: Seq<char>, serial: u32, handle: Seq<char> },
    Failure { sender: Seq<char>, serial: u32 },
    SenderGone { sender: Seq<char> },
}

impl View for Meaning {
    type V = MeaningModel;

    open spec fn view(&self) -> MeaningModel {
        match self {
            Meaning::Nothing => MeaningModel::Nothing,
            Meaning::LegacyCall { sender, serial } => MeaningModel::LegacyCall {
                sender: sender@,
                serial: *serial,
            },
            Meaning::LegacyRelease { sender, cookie } => MeaningModel::LegacyRelease {
                sender: sender@,
                cookie: *cookie,
            },
            Meaning::PortalCall { sender, serial } => MeaningModel::PortalCall {
                sender: sender@,
                serial: *serial,
            },
            Meaning::PortalClose { sender, handle } => MeaningModel::PortalClose {
                sender: sender@,
                handle: handle@,
            },
            Meaning::LegacyReply { sender, serial, cookie } => MeaningModel::LegacyReply {
                sender: sender@,
                serial: *serial,
                cookie: *cookie,
            },
            Meaning::PortalReply { sender, serial, handle } => MeaningModel::PortalReply {
                sender: sender@,
                serial: *serial,
                handle: handle@,
            },
            Meaning::Failure { sender, serial } => MeaningModel::Failure {
                sender: sender@,
                serial: *serial,
            },
            Meaning::SenderGone { sender } => MeaningModel::SenderGone { sender: sender@ },
        }
    }
}

/// The two interfaces that answer with a cookie.
pub open spec fn is_legacy(interface: Seq<char>) -> bool {
    lowered(interface) == "org.freedesktop.screensaver"@ || lowered(interface)
        == "org.gnome.sessionmanager"@
}

/// What a call means.
pub open spec fn call_meaning(
    sender: Option<Seq<char>>,
    serial: u32,
    interface: Seq<char>,
    member: Seq<char>,
    path: Option<Seq<char>>,
    number: Option<u32>,
) -> MeaningModel {
    match sender {
        None => MeaningModel::Nothing,
        Some(sender) => if is_legacy(interface) && lowered(member) == "inhibit"@ {
            MeaningModel::LegacyCall { sender, serial }
        } else if is_legacy(interface) && lowered(member) == "uninhibit"@ {
            match number {
                Some(cookie) => MeaningModel::LegacyRelease { sender, cookie },
                None => MeaningModel::Nothing,
            }
        } else if lowered(interface) == "org.freedesktop.portal.inhibit"@ && lowered(member)
            == "inhibit"@ {
            MeaningModel::PortalCall { sender, serial }
        } else if lowered(interface) == "org.freedesktop.portal.request"@ && lowered(member)
            == "close"@ {
            match path {
                Some(handle) => MeaningModel::PortalClose { sender, handle },
                None => MeaningModel::Nothing,
            }
        } else {
            MeaningModel::Nothing
        },
    }
}

impl BusMessage {
    /// What the message means.
    pub open spec fn means(self) -> MeaningModel {
        match self {
            BusMessage::Call { sender, serial, interface, member, path, number } => call_meaning(
                opt_view(sender),
                serial,
                interface@,
                member@,
                opt_view(path),
                number,
            ),
            BusMessage::Return { destination, reply_serial, number, object } => match (
                destination,
                reply_serial,
            ) {
                (Some(d), Some(serial)) => match (number, object) {
                    (Some(cookie), _) => MeaningModel::LegacyReply { sender: d@, serial, cookie },
                    (None, Some(h)) => MeaningModel::PortalReply {
                        sender: d@,
                        serial,
                        handle: h@,
                    },
                    (None, None) => MeaningModel::Nothing,
                },
                _ => MeaningModel::Nothing,
            },
            BusMessage::Error { destination, reply_serial } => match (destination, reply_serial) {
                (Some(d), Some(serial)) => MeaningModel::Failure { sender: d@, serial },
                _ => MeaningModel::Nothing,
            },
            BusMessage::Signal { interface, member, names } => match names {
                Some(n) if lowered(interface@) == "org.freedesktop.dbus"@ && lowered(member@)
                    == "nameownerchanged"@ && has_prefix(n.0@, ":"@) && n.2@.len() == 0 =>
                MeaningModel::SenderGone { sender: n.0@ },
                _ => MeaningModel::Nothing,
            },
        }
    }

    /// What the message means.
    pub fn meaning(&self) -> (r: Meaning)
        ensures
            r@ == self.means(),
    {
        match self {
            BusMessage::Call { sender, serial, interface, member, path, number } => {
                let Some(sender) = sender else {
                    return Meaning::Nothing;
                };
                let sender = sender.clone();
                let iface = to_ascii_lower(interface.as_str());
                let member = to_ascii_lower(member.as_str());
                let legacy = str_eq(iface.as_str(), "org.freedesktop.screensaver") || str_eq(
                    iface.as_str(),
                    "org.gnome.sessionmanager",
                );
                if legacy && str_eq(member.as_str(), "inhibit") {
                    Meaning::LegacyCall { sender, serial: *serial }
                } else if legacy && str_eq(member.as_str(), "uninhibit") {
                    match number {
                        Some(cookie) => Meaning::LegacyRelease { sender, cookie: *cookie },
                        None => Meaning::Nothing,
                    }
                } else if str_eq(iface.as_str(), "org.freedesktop.portal.inhibit") && str_eq(
                    member.as_str(),
                    "inhibit",
                ) {
                    Meaning::PortalCall { sender, serial: *serial }
                } else if str_eq(iface.as_str(), "org.freedesktop.portal.request") && str_eq(
                    member.as_str(),
                    "close",
                ) {
                    match path {
                        Some(p) => Meaning::PortalClose { sender, handle: p.clone() },
                        None => Meaning::Nothing,
                    }
                } else {
                    Meaning::Nothing
                }
            },
            BusMessage::Return { destination, reply_serial, number, object } => match (
                destination,
                reply_serial,
            ) {
                (Some(d), Some(serial)) => match number {
                    Some(cookie) => Meaning::LegacyReply {
                        sender: d.clone(),
                        serial: *serial,
                        cookie: *cookie,
                    },
                    None => match object {
                        Some(h) => Meaning::PortalReply {
                            sender: d.clone(),
                            serial: *serial,
                            handle: h.clone(),
                        },
                        None => Meaning::Nothing,
                    },
                },
                _ => Meaning::Nothing,
            },
            BusMessage::Error { destination, reply_serial } => match (destination, reply_serial) {
                (Some(d), Some(serial)) => Meaning::Failure { sender: d.clone(), serial: *serial },
                _ => Meaning::Nothing,
            },
            BusMessage::Signal { interface, member, names } => {
                let Some(n) = names else {
                    return Meaning::Nothing;
                };
                let iface = to_ascii_lower(interface.as_str());
                let member = to_ascii_lower(member.as_str());
                if str_eq(iface.as_str(), "org.freedesktop.dbus") && str_eq(
                    member.as_str(),
                    "nameownerchanged",
                ) && starts_with(n.0.as_str(), ":") && n.2.as_str().unicode_len() == 0 {
                    Meaning::SenderGone { sender: n.0.clone() }
                } else {
                    Meaning::Nothing
                }
            },
        }
    }
}

impl TrackerModel {
    /// What a message leads to. While a browser still captures a source, the close of a portal
    /// request is passed over.
    pub open spec fn after(self, meaning: MeaningModel, capturing: bool) -> TrackerModel {
        match meaning {
            MeaningModel::Nothing => self,
            MeaningModel::LegacyCall { sender, serial } => TrackerModel {
                legacy_calls: self.legacy_calls.insert((sender, serial)),
                ..self
            },
            MeaningModel::LegacyRelease { sender, cookie } => TrackerModel {
                cookies: self.cookies.remove((sender, cookie)),
                ..self
            },
            MeaningModel::PortalCall { sender, serial } => TrackerModel {
                portal_calls: self.portal_calls.insert((sender, serial)),
                ..self
            },
            MeaningModel::PortalClose { sender, handle } => if capturing {
                self
            } else {
                TrackerModel { handles: self.handles.remove((sender, handle)), ..self }
            },
            MeaningModel::LegacyReply { sender, serial, cookie } => self.with_cookie(
                sender,
                serial,
                cookie,
            ),
            MeaningModel::PortalReply { sender, serial, handle } => self.with_handle(
                sender,
                serial,
                handle,
            ),
            MeaningModel::Failure { sender, serial } => TrackerModel {
                legacy_calls: self.legacy_calls.remove((sender, serial)),
                portal_calls: self.portal_calls.remove((sender, serial)),
                ..self
            },
            MeaningModel::SenderGone { sender } => self.without(sender),
        }
    }

    pub open spec fn inhibits(self) -> bool {
        self.senders() != Set::<Seq<char>>::empty()
    }
}

/// The event that a change of the tracker is worth: the first inhibit, and the end of the last.
pub open spec fn edge(before: TrackerModel, after: TrackerModel, now_ms: u64) -> Option<Event> {
    if !before.inhibits() && after.inhibits() {
        Some(Event::BrowserActivity { now_ms })
    } else if before.inhibits() && !after.inhibits() {
        Some(Event::BrowserInactive { now_ms })
    } else {
        None
    }
}

/// Whether it matters for the message if a browser captures a source right now.
pub fn asks_for_capture(meaning: &Meaning) -> (r: bool)
    ensures
        r == (meaning@ is PortalClose),
{
    match meaning {
        Meaning::PortalClose { .. } => true,
        _ => false,
    }
}

impl DbusInhibitTracker {
    /// Takes a message in, and gives the event that it is worth.
    pub fn take(&mut self, meaning: &Meaning, capturing: bool, now_ms: u64) -> (r: Option<Event>)
        ensures
            final(self)@ == old(self)@.after(meaning@, capturing),
            r == edge(old(self)@, final(self)@, now_ms),
    {
        let old_total = self.total();
        match meaning {
            Meaning::Nothing => {},
            Meaning::LegacyCall { sender, serial } => {
                self.mark_legacy_call(sender.as_str(), *serial);
            },
            Meaning::LegacyRelease { sender, cookie } => {
                let _ = self.clear_legacy_cookie(sender.as_str(), *cookie);
            },
            Meaning::PortalCall { sender, serial } => {
                self.mark_portal_call(sender.as_str(), *serial);
            },
            Meaning::PortalClose { sender, handle } => {
                if !capturing {
                    let _ = self.clear_portal_handle(sender.as_str(), handle.as_str());
                }
            },
            Meaning::LegacyReply { sender, serial, cookie } => {
                let _ = self.confirm_legacy_cookie(sender.as_str(), *serial, *cookie);
            },
            Meaning::PortalReply { sender, serial, handle } => {
                let _ = self.confirm_portal_handle(sender.as_str(), *serial, handle.as_str());
            },
            Meaning::Failure { sender, serial } => {
                self.clear_legacy_call(sender.as_str(), *serial);
                self.clear_portal_call(sender.as_str(), *serial);
            },
            Meaning::SenderGone { sender } => {
                self.remove_sender(sender.as_str());
            },
        }
        let new_total = self.total();
        if old_total == 0 && new_total > 0 {
            Some(Event::BrowserActivity { now_ms })
        } else if old_total > 0 && new_total == 0 {
            Some(Event::BrowserInactive { now_ms })
        } else {
            None
        }
    }
}

// ---------------------------------------------------------------------------------------------
// Source outputs
// ---------------------------------------------------------------------------------------------

/// What the name of a browser has in it.
pub open spec fn browser_tokens() -> Seq<Seq<char>> {
    seq![
        "firefox"@,
        "vivaldi"@,
        "chromium"@,
        "google-chrome"@,
        "google chrome"@,
        "brave"@,
        "librewolf"@,
        "waterfox"@,
        "zen browser"@,
        "zen-browser"@,
        "msedge"@,
        "microsoft-edge"@,
        "opera"@,
    ]
}

/// The description of a stream names a browser.
pub open spec fn names_browser(block: Seq<char>) -> bool {
    exists|i: int|
        0 <= i < browser_tokens().len() && has_part(lowered(block), #[trigger] browser_tokens()[i])
}

/// The line begins the description of a stream.
pub open spec fn begins_stream(line: Seq<char>) -> bool {
    has_prefix(trimmed_start(line), "Source Output #"@) || has_prefix(
        trimmed_start(line),
        "SourceOutput #"@,
    )
}

/// The lines from `i` on up to the next stream, each with its line feed.
pub open spec fn rest_of_stream(all: Seq<Seq<char>>, i: int) -> Seq<char>
    decreases all.len() - i,
{
    if !(0 <= i < all.len()) || begins_stream(all[i]) {
        Seq::empty()
    } else {
        all[i] + "\n"@ + rest_of_stream(all, i + 1)
    }
}

/// The description of the stream that begins at the line `i`.
pub open spec fn stream_at(all: Seq<Seq<char>>, i: int) -> Seq<char> {
    all[i] + "\n"@ + rest_of_stream(all, i + 1)
}

/// Some stream of the listing belongs to a browser.
pub open spec fn has_browser_stream(text: Seq<char>) -> bool {
    let all = lines_of(text);
    exists|i: int|
        0 <= i < all.len() && #[trigger] begins_stream(all[i]) && names_browser(stream_at(all, i))
}

fn browser_token_in_block(block_lc: &str) -> (r: bool)
    ensures
        r == exists|i: int|
            0 <= i < browser_tokens().len() && has_part(
                block_lc@,
                #[trigger] browser_tokens()[i],
            ),
{
    let tokens: [&str; 13] = [
        "firefox",
        "vivaldi",
        "chromium",
        "google-chrome",
        "google chrome",
        "brave",
        "librewolf",
        "waterfox",
        "zen browser",
        "zen-browser",
        "msedge",
        "microsoft-edge",
        "opera",
    ];
    let mut i: usize = 0;
    while i < 13
        invariant
            i <= 13,
            forall|k: int| 0 <= k < 13 ==> (#[trigger] tokens@[k])@ == browser_tokens()[k],
            forall|k: int|
                0 <= k < i ==> !has_part(block_lc@, #[trigger] browser_tokens()[k]),
        decreases 13 - i,
    {
        assert(tokens@[i as int]@ == browser_tokens()[i as int]);
        if contains(block_lc, tokens[i]) {
            return true;
        }
        i += 1;
    }
    false
}

/// Whether the description of a stream names a browser.
pub fn stream_block_is_browser(block: &str) -> (r: bool)
    ensures
        r == names_browser(block@),
{
    let b = to_ascii_lower(block);
    browser_token_in_block(b.as_str())
}

fn is_stream_header(line: &str) -> (r: bool)
    ensures
        r == begins_stream(line@),
{
    let t = trim_start(line);
    starts_with(t.as_str(), "Source Output #") || starts_with(t.as_str(), "SourceOutput #")
}

fn stream_block(all: &Vec<String>, at: usize) -> (r: String)
    requires
        at < all.len(),
    ensures
        r@ == stream_at(views(all@), at as int),
{
    let ghost v = views(all@);
    let mut out = String::new();
    out.append(all[at].as_str());
    out.append("\n");
    let mut i: usize = at + 1;
    assert(out@ + rest_of_stream(v, at + 1) =~= stream_at(v, at as int));
    while i < all.len() && !is_stream_header(all[i].as_str())
        invariant
            v == views(all@),
            at < i <= all.len(),
            out@ + rest_of_stream(v, i as int) == stream_at(v, at as int),
        decreases all.len() - i,
    {
        assert(v[i as int] == all@[i as int]@);
        let ghost sofar = out@;
        out.append(all[i].as_str());
        out.append("\n");
        assert(sofar + rest_of_stream(v, i as int) =~= out@ + rest_of_stream(v, i + 1));
        i += 1;
    }
    proof {
        if i < all.len() {
            assert(v[i as int] == all@[i as int]@);
        }
        assert(out@ + Seq::<char>::empty() =~= out@);
    }
    out
}

/// Whether some stream of the listing belongs to a browser.
pub fn parse_browser_stream_blocks(text: &str) -> (r: bool)
    ensures
        r == has_browser_stream(text@),
{
    let all = lines(text);
    let ghost v = views(all@);
    for i in 0..all.len()
        invariant
            v == views(all@),
            v == lines_of(text@),
            forall|k: int|
                0 <= k < i && #[trigger] begins_stream(v[k]) ==> !names_browser(stream_at(v, k)),
    {
        assert(v[i as int] == all@[i as int]@);
        if is_stream_header(all[i].as_str()) {
            let block = stream_block(&all, i);
            if stream_block_is_browser(block.as_str()) {
                assert(begins_stream(v[i as int]) && names_browser(stream_at(v, i as int)));
                return true;
            }
        }
    }
    false
}

// ---------------------------------------------------------------------------------------------
// Signals of the session manager
// ---------------------------------------------------------------------------------------------

/// The event of a `PrepareForSleep` signal.
pub fn sleep_event(going_down: bool, now_ms: u64) -> (r: Event)
    ensures
        r == (if going_down {
            Event::PrepareForSleep { now_ms }
        } else {
            Event::ResumedFromSleep { now_ms }
        }),
{
    if going_down {
        Event::PrepareForSleep { now_ms }
    } else {
        Event::ResumedFromSleep { now_ms }
    }
}

/// The event of a change of properties: the lid of the machine moved.
pub fn lid_event(interface: &str, lid_is_closed: Option<bool>, now_ms: u64) -> (r: Option<Event>)
    ensures
        r == (if interface@ == "org.freedesktop.UPower"@ {
            match lid_is_closed {
                Some(true) => Some(Event::LidClosed { now_ms }),
                Some(false) => Some(Event::LidOpened { now_ms }),
                None => None,
            }
        } else {
            None
        }),
{
    if !str_eq(interface, "org.freedesktop.UPower") {
        return None;
    }
    match lid_is_closed {
        Some(true) => Some(Event::LidClosed { now_ms }),
        Some(false) => Some(Event::LidOpened { now_ms }),
        None => None,
    }
}

/// A session that the session manager knows. The type is asked for only where the user matches.
#[derive(Debug)]
pub struct SessionEntry {
    pub uid: u32,
    pub seat: String,
    pub session_type: Option<String>,
}

impl SessionEntry {
    /// A graphical session of the user at the first seat.
    pub open spec fn is_graphical(self, uid: u32) -> bool {
        self.uid == uid && self.seat@ == "seat0"@ && (self.session_type matches Some(t) && (t@
            == "wayland"@ || t@ == "x11"@))
    }
}

/// The session to watch: the first graphical one of the user, or else their first one.
pub fn select_session(uid: u32, sessions: &Vec<SessionEntry>) -> (r: Option<usize>)
    ensures
        match r {
            Some(i) => i < sessions@.len() && (if exists|k: int|
                0 <= k < sessions@.len() && (#[trigger] sessions@[k]).is_graphical(uid) {
                sessions@[i as int].is_graphical(uid) && forall|k: int|
                    0 <= k < i ==> !(#[trigger] sessions@[k]).is_graphical(uid)
            } else {
                sessions@[i as int].uid == uid && forall|k: int|
                    0 <= k < i ==> (#[trigger] sessions@[k]).uid != uid
            }),
            None => forall|k: int| 0 <= k < sessions@.len() ==> (#[trigger] sessions@[k]).uid != uid,
        },
{
    for i in 0..sessions.len()
        invariant
            forall|k: int| 0 <= k < i ==> !(#[trigger] sessions@[k]).is_graphical(uid),
    {
        let s = &sessions[i];
        let graphical = match &s.session_type {
            Some(t) => str_eq(t.as_str(), "wayland") || str_eq(t.as_str(), "x11"),
            None => false,
        };
        if s.uid == uid && graphical && str_eq(s.seat.as_str(), "seat0") {
            assert(sessions@[i as int].is_graphical(uid));
            return Some(i);
        }
    }
    for i in 0..sessions.len()
        invariant
            forall|k: int| 0 <= k < sessions@.len() ==> !(#[trigger] sessions@[k]).is_graphical(
                uid,
            ),
            forall|k: int| 0 <= k < i ==> (#[trigger] sessions@[k]).uid != uid,
    {
        if sessions[i].uid == uid {
            return Some(i);
        }
    }
    None
}

// ---------------------------------------------------------------------------------------------
// Laws
// ---------------------------------------------------------------------------------------------

/// An inhibit of the portal stays until its own request is closed or its sender leaves.
pub proof fn handle_stays_until_closed(
    t: TrackerModel,
    meaning: MeaningModel,
    capturing: bool,
    sender: Seq<char>,
    handle: Seq<char>,
)
    requires
        t.handles.contains((sender, handle)),
        !t.after(meaning, capturing).handles.contains((sender, handle)),
    ensures
        meaning == (MeaningModel::PortalClose { sender, handle }) && !capturing || meaning == (
        MeaningModel::SenderGone { sender }),
{
}

/// An inhibit with a cookie stays until that cookie is given back or its sender leaves.
pub proof fn cookie_stays_until_given_back(
    t: TrackerModel,
    meaning: MeaningModel,
    capturing: bool,
    sender: Seq<char>,
    cookie: u32,
)
    requires
        t.cookies.contains((sender, cookie)),
        !t.after(meaning, capturing).cookies.contains((sender, cookie)),
    ensures
        meaning == (MeaningModel::LegacyRelease { sender, cookie }) || meaning == (
        MeaningModel::SenderGone { sender }),
{
}

/// A reply to a call that was not seen changes nothing.
pub proof fn unasked_replies_have_no_effect(
    t: TrackerModel,
    sender: Seq<char>,
    serial: u32,
    cookie: u32,
    handle: Seq<char>,
    capturing: bool,
)
    ensures
        !t.legacy_calls.contains((sender, serial)) ==> t.after(
            MeaningModel::LegacyReply { sender, serial, cookie },
            capturing,
        ) == t,
        !t.portal_calls.contains((sender, serial)) ==> t.after(
            MeaningModel::PortalReply { sender, serial, handle },
            capturing,
        ) == t,
{
}

/// A call, its answer and the close of the request leave the tracker as it was.
pub proof fn close_undoes_inhibit(
    t: TrackerModel,
    sender: Seq<char>,
    serial: u32,
    handle: Seq<char>,
)
    requires
        !t.portal_calls.contains((sender, serial)),
        !t.handles.contains((sender, handle)),
    ensures
        t.after(MeaningModel::PortalCall { sender, serial }, false).after(
            MeaningModel::PortalReply { sender, serial, handle },
            false,
        ).after(MeaningModel::PortalClose { sender, handle }, false) == t,
{
    let a = t.after(MeaningModel::PortalCall { sender, serial }, false);
    let b = a.after(MeaningModel::PortalReply { sender, serial, handle }, false);
    let c = b.after(MeaningModel::PortalClose { sender, handle }, false);
    assert(a.portal_calls.contains((sender, serial)));
    assert(c =~= t);
}

/// A call, its answer and the return of the cookie leave the tracker as it was.
pub proof fn release_undoes_inhibit(t: TrackerModel, sender: Seq<char>, serial: u32, cookie: u32)
    requires
        !t.legacy_calls.contains((sender, serial)),
        !t.cookies.contains((sender, cookie)),
    ensures
        t.after(MeaningModel::LegacyCall { sender, serial }, false).after(
            MeaningModel::LegacyReply { sender, serial, cookie },
            false,
        ).after(MeaningModel::LegacyRelease { sender, cookie }, false) == t,
{
    let a = t.after(MeaningModel::LegacyCall { sender, serial }, false);
    let b = a.after(MeaningModel::LegacyReply { sender, serial, cookie }, false);
    let c = b.after(MeaningModel::LegacyRelease { sender, cookie }, false);
    assert(a.legacy_calls.contains((sender, serial)));
    assert(c =~= t);
}

/// A sender that leaves the bus inhibits no more, and no other sender is affected.
pub proof fn departure_clears_the_sender(t: TrackerModel, sender: Seq<char>, other: Seq<char>)
    requires
        other != sender,
    ensures
        !t.without(sender).senders().contains(sender),
        t.without(sender).senders().contains(other) <==> t.senders().contains(other),
{
    let u = t.without(sender);
    if t.senders().contains(other) {
        if senders_of(t.cookies).contains(other) {
            let p = choose|p: (Seq<char>, u32)| #[trigger] t.cookies.contains(p) && p.0 == other;
            assert(u.cookies.contains(p));
        } else {
            let p = choose|p: (Seq<char>, Seq<char>)| #[trigger]
                t.handles.contains(p) && p.0 == other;
            assert(u.handles.contains(p));
        }
    }
    if u.senders().contains(other) {
        if senders_of(u.cookies).contains(other) {
            let p = choose|p: (Seq<char>, u32)| #[trigger] u.cookies.contains(p) && p.0 == other;
            assert(t.cookies.contains(p));
        } else {
            let p = choose|p: (Seq<char>, Seq<char>)| #[trigger]
                u.handles.contains(p) && p.0 == other;
            assert(t.handles.contains(p));
        }
    }
}

} // verus!
