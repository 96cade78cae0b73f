//! `pause` and `resume`.

use vstd::prelude::*;

use super::clock::{clock_of, parse_clock, Clock};
use super::duration::{duration_ms, parse_duration};
use crate::text::split::{split_whitespace, words_of};
use crate::text::strings::{
    cat, eq_ignore_case, join, joined, same_ignoring_case, str_eq, trim, trimmed, views,
};

verus! {

pub const PAUSE_HELP_MESSAGE: &'static str = "Usage:
  stasis pause
  stasis pause for <duration>
  stasis pause until <time>

Examples:
  stasis pause
  stasis pause for 5m
  stasis pause for 1h30m
  stasis pause for 250ms
  stasis pause until 1:30pm
  stasis pause until 13:30

Duration format:
  - a sequence of <number><unit> parts, like: 1h30m, 5m, 10s, 250ms
  - units: ms, s, m, h, d

Notes:
  - `pause` with no args pauses until you run `stasis resume`.
  - `pause for/until` schedules an automatic resume in the daemon.
";

/// What a `pause` asks for. Every one but the help pauses first.
#[derive(Debug)]
pub enum PauseRequest {
    Help,
    /// Until a resume.
    Indefinite,
    /// For a span of time, in milliseconds, written like this.
    For { text: String, ms: u64 },
    /// Until a time of day, written like this.
    Until { text: String, clock: Clock },
    /// What cannot be done, with the words for the user.
    Refused { reply: String },
}

/// What stands for a [`PauseRequest`] in contracts.
pub enum PauseModel {
    Help,
    Indefinite,
    For { text: Seq<char>, ms: u64 },
    Until { text: Seq<char>, clock: Clock },
    Refused { reply: Seq<char> },
}

impl View for PauseRequest {
    type V = PauseModel;

    open spec fn view(&self) -> PauseModel {
        match self {
            PauseRequest::Help => PauseModel::Help,
            PauseRequest::Indefinite => PauseModel::Indefinite,
            PauseRequest::For { text, ms } => PauseModel::For { text: text@, ms: *ms },
            PauseRequest::Until { text, clock } => PauseModel::Until {
                text: text@,
                clock: *clock,
            },
            PauseRequest::Refused { reply } => PauseModel::Refused { reply: reply@ },
        }
    }
}

/// A refusal: what is wrong, and how to do it right.
pub open spec fn refusal(words: Seq<char>) -> Seq<char> {
    "ERROR: "@ + words + "\n\n"@ + PAUSE_HELP_MESSAGE@
}

/// What a `pause` with these arguments asks for.
pub open spec fn pause_asked(args: Seq<char>) -> PauseModel {
    let a = trimmed(args);
    let words = words_of(a);
    let rest = trimmed(joined(words.skip(1), " "@));
    if same_ignoring_case(a, "help"@) || a == "-h"@ || a == "--help"@ {
        PauseModel::Help
    } else if a.len() == 0 {
        PauseModel::Indefinite
    } else if words.len() > 1 && words[0] == "for"@ {
        match duration_ms(rest) {
            Ok(ms) => PauseModel::For { text: rest, ms: ms as u64 },
            Err(e) => PauseModel::Refused { reply: refusal(e.words()) },
        }
    } else if words.len() > 1 && words[0] == "until"@ {
        match clock_of(rest) {
            Ok(clock) => PauseModel::Until { text: rest, clock },
            Err(e) => PauseModel::Refused { reply: refusal(e.words()) },
        }
    } else {
        PauseModel::Refused { reply: refusal("invalid pause syntax"@) }
    }
}

impl PauseModel {
    /// The request pauses the timers: one that is refused does so too, and stays until a resume.
    pub open spec fn pauses(self) -> bool {
        !(self is Help)
    }

    /// The request voids the resumes that were scheduled before it.
    pub open spec fn renews(self) -> bool {
        self is Indefinite || self is For || self is Until
    }
}

impl PauseRequest {
    /// The request pauses the timers, before anything else is done for it.
    pub fn pauses(&self) -> (r: bool)
        ensures
            r == self@.pauses(),
    {
        match self {
            PauseRequest::Help => false,
            _ => true,
        }
    }

    /// The request voids the resumes that were scheduled before it.
    pub fn renews(&self) -> (r: bool)
        ensures
            r == self@.renews(),
    {
        match self {
            PauseRequest::Help => false,
            PauseRequest::Refused { .. } => false,
            _ => true,
        }
    }
}

/// The words of a refusal.
pub fn refuse(words: &str) -> (r: String)
    ensures
        r@ == refusal(words@),
{
    let mut out = String::from_str("ERROR: ");
    out.append(words);
    out.append("\n\n");
    out.append(PAUSE_HELP_MESSAGE);
    out
}

fn rest_of(words: &Vec<String>) -> (r: String)
    requires
        words.len() > 1,
    ensures
        r@ == trimmed(joined(views(words@).skip(1), " "@)),
{
    let ghost v = views(words@);
    let mut parts: Vec<String> = Vec::new();
    assert(v.skip(1).take(0) =~= views(parts@));
    for i in 1..words.len()
        invariant
            v == views(words@),
            1 <= words.len(),
            views(parts@) == v.skip(1).take(i - 1),
    {
        let ghost before = views(parts@);
        let w = words[i].clone();
        parts.push(w);
        assert(views(parts@) =~= before.push(w@));
        assert(v.skip(1)[i - 1] == words@[i as int]@);
        assert(v.skip(1).take(i as int) =~= v.skip(1).take(i - 1).push(v.skip(1)[i - 1]));
    }
    assert(v.skip(1).take(v.len() - 1) =~= v.skip(1));
    let whole = join(&parts, " ");
    trim(whole.as_str())
}

/// What a `pause` with these arguments asks for.
pub fn plan_pause(args: &str) -> (r: PauseRequest)
    ensures
        r@ == pause_asked(args@),
{
    let a = trim(args);
    if eq_ignore_case(a.as_str(), "help") || str_eq(a.as_str(), "-h") || str_eq(
        a.as_str(),
        "--help",
    ) {
        return PauseRequest::Help;
    }
    if a.as_str().unicode_len() == 0 {
        return PauseRequest::Indefinite;
    }
    let words = split_whitespace(a.as_str());
    assert(views(words@).len() == words@.len());
    if words.len() > 1 {
        assert(views(words@)[0] == words@[0]@);
        if str_eq(words[0].as_str(), "for") {
            let text = rest_of(&words);
            return match parse_duration(text.as_str()) {
                Ok(ms) => PauseRequest::For { text, ms },
                Err(e) => {
                    let words = e.message();
                    PauseRequest::Refused { reply: refuse(words.as_str()) }
                },
            };
        }
        if str_eq(words[0].as_str(), "until") {
            let text = rest_of(&words);
            return match parse_clock(text.as_str()) {
                Ok(clock) => PauseRequest::Until { text, clock },
                Err(e) => PauseRequest::Refused { reply: refuse(e.message()) },
            };
        }
    }
    PauseRequest::Refused { reply: refuse("invalid pause syntax") }
}

/// The answer to a pause for a span of time.
pub fn paused_for(text: &str) -> (r: String)
    ensures
        r@ == "Idle timers paused for "@ + text@,
{
    cat("Idle timers paused for ", text)
}

/// The answer to a pause until a time of day.
pub fn paused_until(text: &str) -> (r: String)
    ensures
        r@ == "Idle timers paused until "@ + text@,
{
    cat("Idle timers paused until ", text)
}

/// What the user is told at the end of a pause for a span of time.
pub fn expired_for(text: &str) -> (r: String)
    ensures
        r@ == "Resume idle manager after "@ + text@ + " pause"@,
{
    let head = cat("Resume idle manager after ", text);
    cat(head.as_str(), " pause")
}

/// What the user is told at the end of a pause until a time of day.
pub fn expired_until(text: &str) -> (r: String)
    ensures
        r@ == "Resume idle manager: pause-until time reached ("@ + text@ + ")"@,
{
    let head = cat("Resume idle manager: pause-until time reached (", text);
    cat(head.as_str(), ")")
}

// ---------------------------------------------------------------------------------------------
// Scheduled resumes
// ---------------------------------------------------------------------------------------------

/// Counts the pauses and resumes, so that a scheduled resume can tell whether it is still meant.
#[derive(Debug)]
pub struct PauseGeneration {
    current: u64,
}

impl View for PauseGeneration {
    type V = u64;

    closed spec fn view(&self) -> u64 {
        self.current
    }
}

impl PauseGeneration {
    pub fn new() -> (r: Self)
        ensures
            r@ == 1,
    {
        PauseGeneration { current: 1 }
    }

    /// Begins a new generation, and gives its number. What was scheduled before is void.
    pub fn advance(&mut self) -> (r: u64)
        ensures
            final(self)@ == old(self)@.wrapping_add(1),
            r == final(self)@,
    {
        self.current = self.current.wrapping_add(1);
        self.current
    }

    /// Whether what was scheduled in the generation `mine` is still meant.
    pub fn is_current(&self, mine: u64) -> (r: bool)
        ensures
            r == (self@ == mine),
    {
        self.current == mine
    }
}

/// The generation after `n` further pauses and resumes.
pub open spec fn generation_after(g: u64, n: nat) -> u64
    decreases n,
{
    if n == 0 {
        g
    } else {
        generation_after(g.wrapping_add(1), (n - 1) as nat)
    }
}

/// Every later pause or resume voids a scheduled resume, and so do several.
pub proof fn later_generations_void_schedules(g: u64, n: nat)
    requires
        0 < n < 0x1_0000_0000_0000_0000,
    ensures
        generation_after(g, n) != g,
{
    generations_count_up(g, n);
}

proof fn generations_count_up(g: u64, n: nat)
    requires
        n < 0x1_0000_0000_0000_0000,
    ensures
        generation_after(g, n) == (if g + n > u64::MAX {
            g + n - 0x1_0000_0000_0000_0000
        } else {
            g + n
        }),
    decreases n,
{
    if n > 0 {
        generations_count_up(g.wrapping_add(1), (n - 1) as nat);
    }
}

/// A `pause` that is refused names the error and shows how to do it right.
pub proof fn refusals_show_the_help(args: Seq<char>)
    ensures
        pause_asked(args) matches PauseModel::Refused { reply } ==> exists|words: Seq<char>|
            reply == #[trigger] refusal(words),
{
}

} // verus!
