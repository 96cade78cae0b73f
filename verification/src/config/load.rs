//! Which file the configuration comes from.
//!
//! Several places are tried in turn. Reading a file is the caller's work: a [`Loading`] says which
//! place is next and takes what was read there.

use rune_cfg::RuneConfig;
use vstd::prelude::*;

use super::document::{parse_config_file, NO_DEFAULT};
use super::source::{readable, source_of};
use super::types::{ConfigFile, FileModel};
use crate::paths::{same_path, same_place, ETC_CONFIG};
use crate::text::strings::{
    cat, has_part, name_view, part_stays, trim_end, trimmed_end, views, whole_is_a_part,
};

verus! {

/// Loaded config + the concrete path that succeeded.
#[derive(Debug)]
pub struct LoadedConfig {
    pub path: String,
    pub cfg: ConfigFile,
}

/// What stands for a [`LoadedConfig`] in contracts.
#[verifier::ext_equal]
pub struct LoadedModel {
    pub path: Seq<char>,
    pub cfg: FileModel,
}

impl View for LoadedConfig {
    type V = LoadedModel;

    open spec fn view(&self) -> LoadedModel {
        LoadedModel { path: self.path@, cfg: self.cfg@ }
    }
}

/// What is said of a file that cannot be read.
pub open spec fn unreadable(e: Seq<char>) -> Seq<char> {
    "failed to read: "@ + e
}

/// What is said of a file whose contents cannot be used.
pub open spec fn unusable(e: Seq<char>) -> Seq<char> {
    "failed to parse: "@ + e
}

/// What a place gives, from what was read there: a configuration file, or why there is none.
pub open spec fn taken(read: Result<RuneConfig, Seq<char>>) -> Result<FileModel, Seq<char>> {
    match read {
        Err(e) => Err(unreadable(e)),
        Ok(rc) => if readable(rc) {
            match source_of(rc).file() {
                Ok(f) => Ok(f),
                Err(e) => Err(unusable(e)),
            }
        } else {
            Err(unusable(NO_DEFAULT@))
        },
    }
}

/// What stands for what was read at a place in contracts.
pub open spec fn read_view(read: Result<RuneConfig, String>) -> Result<RuneConfig, Seq<char>> {
    match read {
        Ok(rc) => Ok(rc),
        Err(e) => Err(e@),
    }
}

/// A place among others.
pub open spec fn has_place(places: Seq<Seq<char>>, p: Seq<char>) -> bool {
    exists|i: int| 0 <= i < places.len() && same_place(#[trigger] places[i], p)
}

/// Places in their order, each once.
pub open spec fn places_once(all: Seq<Seq<char>>) -> Seq<Seq<char>>
    decreases all.len(),
{
    if all.len() == 0 {
        Seq::empty()
    } else if has_place(places_once(all.drop_last()), all.last()) {
        places_once(all.drop_last())
    } else {
        places_once(all.drop_last()).push(all.last())
    }
}

/// The places that are tried: the first one if it is given, then the others.
pub open spec fn candidates(primary: Option<Seq<char>>, fallbacks: Seq<Seq<char>>) -> Seq<
    Seq<char>,
> {
    match primary {
        Some(p) => places_once(seq![p] + fallbacks),
        None => places_once(fallbacks),
    }
}

/// The report's lines on the first places.
pub open spec fn report_lines(places: Seq<Seq<char>>, reasons: Seq<Seq<char>>) -> Seq<char>
    decreases reasons.len(),
{
    if reasons.len() == 0 {
        Seq::empty()
    } else {
        let n = reasons.len() - 1;
        report_lines(places, reasons.drop_last()) + ("  - "@ + places[n] + ": "@ + trimmed_end(
            reasons[n],
        ) + "\n"@)
    }
}

/// What is said where no place gave a configuration.
pub open spec fn report_text(places: Seq<Seq<char>>, reasons: Seq<Seq<char>>) -> Seq<char> {
    trimmed_end(
        "failed to load config from all candidate locations:\n"@ + report_lines(places, reasons),
    )
}

/// A walk over the places a configuration may come from.
#[derive(Debug)]
pub struct Loading {
    places: Vec<String>,
    /// Why each of the first places gave nothing.
    reasons: Vec<String>,
}

/// What stands for a [`Loading`] in contracts.
#[verifier::ext_equal]
pub struct LoadingModel {
    pub places: Seq<Seq<char>>,
    pub reasons: Seq<Seq<char>>,
}

impl View for Loading {
    type V = LoadingModel;

    closed spec fn view(&self) -> LoadingModel {
        LoadingModel { places: views(self.places@), reasons: views(self.reasons@) }
    }
}

impl LoadingModel {
    /// No more places have failed than there are.
    pub open spec fn valid(self) -> bool {
        self.reasons.len() <= self.places.len()
    }

    /// The place that is to be tried next, if one is left.
    pub open spec fn next(self) -> Option<Seq<char>> {
        if self.reasons.len() < self.places.len() {
            Some(self.places[self.reasons.len() as int])
        } else {
            None
        }
    }
}

impl Loading {
    /// Try `primary` first (if provided), then each fallback path in order.
    pub fn new(primary: Option<&str>, fallbacks: &Vec<String>) -> (r: Self)
        ensures
            r@.places == candidates(name_view(primary), views(fallbacks@)),
            r@.reasons.len() == 0,
            r@.valid(),
    {
        let mut places: Vec<String> = Vec::new();
        let ghost first: Seq<Seq<char>> = match primary {
            Some(p) => seq![p@],
            None => Seq::empty(),
        };
        match primary {
            Some(p) => {
                places.push(String::from_str(p));
                proof {
                    assert(first.drop_last() =~= Seq::empty());
                    assert(places_once(first.drop_last()) =~= Seq::empty());
                    assert(views(places@) =~= places_once(first));
                }
            },
            None => {
                assert(views(places@) =~= places_once(first));
            },
        }
        let ghost all = first + views(fallbacks@);
        assert(all.take(first.len() as int) =~= first);
        for i in 0..fallbacks.len()
            invariant
                all == first + views(fallbacks@),
                views(places@) == places_once(all.take(first.len() + i)),
        {
            let ghost n = first.len() + i;
            assert(all.take(n + 1).drop_last() =~= all.take(n));
            assert(all.take(n + 1).last() == fallbacks@[i as int]@);
            let p = fallbacks[i].as_str();
            let known = place_known(&places, p);
            if !known {
                let ghost before = places@;
                places.push(String::from_str(p));
                assert(views(places@) =~= views(before).push(p@));
            }
        }
        assert(all.take(all.len() as int) =~= all);
        assert(primary is None ==> all =~= views(fallbacks@));
        let reasons: Vec<String> = Vec::new();
        Loading { places, reasons }
    }

    /// Load from an explicit path, *but still apply fallbacks*: the path itself, the user's
    /// configuration, the one of the system.
    pub fn from_path(path: &str, user: &str) -> (r: Self)
        ensures
            r@.places == candidates(Some(path@), seq![user@, ETC_CONFIG@]),
            r@.reasons.len() == 0,
            r@.valid(),
    {
        let mut fallbacks: Vec<String> = Vec::new();
        fallbacks.push(String::from_str(user));
        fallbacks.push(String::from_str(ETC_CONFIG));
        assert(views(fallbacks@) =~= seq![user@, ETC_CONFIG@]);
        Loading::new(Some(path), &fallbacks)
    }

    /// The place that is to be tried next, if one is left.
    pub fn next_path(&self) -> (r: Option<&str>)
        ensures
            name_view(r) == self@.next(),
    {
        if self.reasons.len() < self.places.len() {
            Some(self.places[self.reasons.len()].as_str())
        } else {
            None
        }
    }

    /// Takes what was read at the next place. Any failure (read OR parse/semantics) leads on to
    /// the place after it.
    pub fn take(&mut self, read: Result<RuneConfig, String>) -> (r: Option<LoadedConfig>)
        requires
            old(self)@.next() is Some,
        ensures
            final(self)@.places == old(self)@.places,
            final(self)@.valid(),
            match taken(read_view(read)) {
                Ok(f) => r matches Some(l) && l@ == (LoadedModel {
                    path: old(self)@.next()->Some_0,
                    cfg: f,
                }) && final(self)@.reasons == old(self)@.reasons,
                Err(e) => r is None && final(self)@.reasons == old(self)@.reasons.push(e),
            },
    {
        let ghost before = self.reasons@;
        let reason = match read {
            Err(e) => cat("failed to read: ", e.as_str()),
            Ok(rc) => match parse_config_file(rc) {
                Ok(cfg) => {
                    let path = self.places[self.reasons.len()].clone();
                    return Some(LoadedConfig { path, cfg });
                },
                Err(e) => cat("failed to parse: ", e.as_str()),
            },
        };
        self.reasons.push(reason);
        assert(views(self.reasons@) =~= views(before).push(reason@));
        None
    }

    /// What is said where no place gave a configuration.
    pub fn report(&self) -> (r: String)
        requires
            self@.valid(),
        ensures
            r@ == report_text(self@.places, self@.reasons),
    {
        let ghost places = self@.places;
        let ghost reasons = self@.reasons;
        let mut msg = String::from_str("failed to load config from all candidate locations:\n");
        assert(msg@ =~= "failed to load config from all candidate locations:\n"@ + report_lines(
            places,
            reasons.take(0),
        ));
        for i in 0..self.reasons.len()
            invariant
                places == views(self.places@),
                reasons == views(self.reasons@),
                reasons.len() <= places.len(),
                msg@ == "failed to load config from all candidate locations:\n"@ + report_lines(
                    places,
                    reasons.take(i as int),
                ),
        {
            let ghost head = msg@;
            assert(reasons.take(i + 1).drop_last() =~= reasons.take(i as int));
            assert(places[i as int] == self.places@[i as int]@);
            assert(reasons[i as int] == self.reasons@[i as int]@);
            let mut line = cat("  - ", self.places[i].as_str());
            line.append(": ");
            let t = trim_end(self.reasons[i].as_str());
            line.append(t.as_str());
            line.append("\n");
            msg.append(line.as_str());
            assert(msg@ =~= "failed to load config from all candidate locations:\n"@ + (
            report_lines(places, reasons.take(i as int)) + line@));
        }
        assert(reasons.take(reasons.len() as int) =~= reasons);
        trim_end(msg.as_str())
    }
}

/// A place is among others.
fn place_known(places: &Vec<String>, p: &str) -> (r: bool)
    ensures
        r == has_place(views(places@), p@),
{
    let ghost all = views(places@);
    for i in 0..places.len()
        invariant
            all == views(places@),
            forall|j: int| 0 <= j < i ==> !same_place(#[trigger] all[j], p@),
    {
        assert(all[i as int] == places@[i as int]@);
        if same_path(places[i].as_str(), p) {
            return true;
        }
    }
    false
}

// ---------------------------------------------------------------------------------------------
// Laws
// ---------------------------------------------------------------------------------------------

/// No place is tried twice.
pub proof fn no_place_is_tried_twice(all: Seq<Seq<char>>)
    ensures
        forall|i: int, j: int|
            0 <= i < j < places_once(all).len() ==> !same_place(
                #[trigger] places_once(all)[i],
                #[trigger] places_once(all)[j],
            ),
    decreases all.len(),
{
    if all.len() > 0 {
        no_place_is_tried_twice(all.drop_last());
        let rest = places_once(all.drop_last());
        let once = places_once(all);
        assert forall|i: int, j: int| 0 <= i < j < once.len() implies !same_place(
            #[trigger] once[i],
            #[trigger] once[j],
        ) by {
            assert(once[i] == rest[i]);
            if j < rest.len() {
                assert(once[j] == rest[j]);
            }
        }
    }
}

/// Every place that is given is tried, if not under the very path then under one that leads to
/// the same place.
pub proof fn every_place_is_tried(all: Seq<Seq<char>>, i: int)
    requires
        0 <= i < all.len(),
    ensures
        has_place(places_once(all), all[i]),
    decreases all.len(),
{
    let rest = places_once(all.drop_last());
    if i == all.len() - 1 {
        if !has_place(rest, all.last()) {
            assert(same_place(rest.push(all.last())[rest.len() as int], all[i]));
        }
    } else {
        every_place_is_tried(all.drop_last(), i);
        let k = choose|k: int| 0 <= k < rest.len() && same_place(#[trigger] rest[k], all[i]);
        assert(same_place(places_once(all)[k], all[i]));
    }
}

/// The path that is asked for is tried before all others.
pub proof fn asked_path_comes_first(primary: Seq<char>, fallbacks: Seq<Seq<char>>)
    ensures
        candidates(Some(primary), fallbacks).len() > 0,
        candidates(Some(primary), fallbacks)[0] == primary,
    decreases fallbacks.len(),
{
    let all = seq![primary] + fallbacks;
    if fallbacks.len() == 0 {
        assert(all.drop_last() =~= Seq::empty());
        assert(places_once(all.drop_last()) =~= Seq::empty());
    } else {
        assert(all.drop_last() =~= seq![primary] + fallbacks.drop_last());
        asked_path_comes_first(primary, fallbacks.drop_last());
    }
}

/// Where no place gave a configuration, each place is reported with its reason.
pub proof fn every_place_is_reported(places: Seq<Seq<char>>, reasons: Seq<Seq<char>>, i: int)
    requires
        0 <= i < reasons.len() <= places.len(),
    ensures
        has_part(report_lines(places, reasons), places[i]),
        has_part(report_lines(places, reasons), trimmed_end(reasons[i])),
    decreases reasons.len(),
{
    let n = reasons.len() - 1;
    let before = report_lines(places, reasons.drop_last());
    let why = trimmed_end(reasons[n]);
    let line = "  - "@ + places[n] + ": "@ + why + "\n"@;
    if i == n {
        whole_is_a_part(places[n]);
        whole_is_a_part(why);
        part_stays("  - "@, places[n], places[n]);
        part_stays("  - "@ + places[n], ": "@, places[n]);
        part_stays("  - "@ + places[n] + ": "@, why, places[n]);
        part_stays("  - "@ + places[n] + ": "@, why, why);
        part_stays("  - "@ + places[n] + ": "@ + why, "\n"@, places[n]);
        part_stays("  - "@ + places[n] + ": "@ + why, "\n"@, why);
    } else {
        every_place_is_reported(places, reasons.drop_last(), i);
    }
    part_stays(before, line, places[i]);
    part_stays(before, line, trimmed_end(reasons[i]));
}

/// The places are tried in their order: the next one is the first that has not failed yet.
pub proof fn places_are_tried_in_order(l: LoadingModel)
    ensures
        l.reasons.len() < l.places.len() ==> l.next() == Some(l.places[l.reasons.len() as int]),
        l.reasons.len() >= l.places.len() ==> l.next() is None,
{
}

} // verus!
