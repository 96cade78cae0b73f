//! `dump`: the end of the log.

use vstd::prelude::*;

use crate::text::numbers::{parse_usize, unsigned_of};
use crate::text::split::{lines, lines_of, split_whitespace, words_of};
use crate::text::strings::{str_eq, trim, trimmed, views};

verus! {

pub const DEFAULT_LINES: usize = 100;

pub const MAX_LINES: usize = 2000;

pub const DUMP_HELP_MESSAGE: &'static str = "Usage: stasis dump [N]

Print the last N lines of the Stasis log.

Arguments:
  N        Number of lines to print (default: 100, max: 2000)

Examples:
  stasis dump
  stasis dump 50
";

/// What a `dump` asks for.
#[derive(Debug, Clone, Copy, PartialEq, Eq, Structural)]
pub enum DumpRequest {
    Help,
    /// The last lines of the log, that many of them.
    Last(usize),
    Refused(DumpError),
}

/// Why a `dump` is refused.
#[derive(Debug, Clone, Copy, PartialEq, Eq, Structural)]
pub enum DumpError {
    Usage,
    NotANumber,
    Zero,
}

impl DumpError {
    pub open spec fn words(self) -> Seq<char> {
        match self {
            DumpError::Usage => "ERROR: usage: stasis dump [N]"@,
            DumpError::NotANumber => "ERROR: N must be a positive integer"@,
            DumpError::Zero => "ERROR: N must be >= 1"@,
        }
    }

    pub fn message(&self) -> (r: &'static str)
        ensures
            r@ == self.words(),
    {
        match self {
            DumpError::Usage => "ERROR: usage: stasis dump [N]",
            DumpError::NotANumber => "ERROR: N must be a positive integer",
            DumpError::Zero => "ERROR: N must be >= 1",
        }
    }
}

/// How many lines are asked for: one number from 1 on, 100 if none is given, at most 2000.
pub open spec fn lines_asked(args: Seq<char>) -> Result<nat, DumpError> {
    let words = words_of(args);
    if args.len() == 0 {
        Ok(DEFAULT_LINES as nat)
    } else if words.len() != 1 {
        Err(DumpError::Usage)
    } else {
        match unsigned_of(words[0], usize::MAX as nat) {
            None => Err(DumpError::NotANumber),
            Some(n) => if n == 0 {
                Err(DumpError::Zero)
            } else if n > MAX_LINES {
                Ok(MAX_LINES as nat)
            } else {
                Ok(n)
            },
        }
    }
}

/// What a `dump` with these arguments asks for.
pub open spec fn dump_asked(args: Seq<char>) -> DumpRequest {
    let a = trimmed(args);
    if a == "help"@ || a == "--help"@ || a == "-h"@ {
        DumpRequest::Help
    } else {
        match lines_asked(a) {
            Ok(n) => DumpRequest::Last(n as usize),
            Err(e) => DumpRequest::Refused(e),
        }
    }
}

/// Each line with its line feed.
pub open spec fn with_feeds(all: Seq<Seq<char>>) -> Seq<char>
    decreases all.len(),
{
    if all.len() == 0 {
        Seq::empty()
    } else {
        with_feeds(all.drop_last()) + all.last() + "\n"@
    }
}

/// The last `n` entries of a list.
pub open spec fn last_of<T>(all: Seq<T>, n: nat) -> Seq<T> {
    if all.len() <= n {
        all
    } else {
        all.skip(all.len() - n)
    }
}

fn parse_lines_arg(args: &str) -> (r: Result<usize, DumpError>)
    ensures
        match r {
            Ok(n) => lines_asked(args@) == Ok::<nat, DumpError>(n as nat),
            Err(e) => lines_asked(args@) == Err::<nat, DumpError>(e),
        },
{
    if args.unicode_len() == 0 {
        return Ok(DEFAULT_LINES);
    }
    let words = split_whitespace(args);
    assert(views(words@).len() == words@.len());
    if words.len() != 1 {
        return Err(DumpError::Usage);
    }
    assert(views(words@)[0] == words@[0]@);
    match parse_usize(words[0].as_str()) {
        None => Err(DumpError::NotANumber),
        Some(n) => if n == 0 {
            Err(DumpError::Zero)
        } else if n > MAX_LINES {
            Ok(MAX_LINES)
        } else {
            Ok(n)
        },
    }
}

/// What a `dump` with these arguments asks for.
pub fn plan_dump(args: &str) -> (r: DumpRequest)
    ensures
        r == dump_asked(args@),
{
    let a = trim(args);
    if str_eq(a.as_str(), "help") || str_eq(a.as_str(), "--help") || str_eq(a.as_str(), "-h") {
        return DumpRequest::Help;
    }
    match parse_lines_arg(a.as_str()) {
        Ok(n) => DumpRequest::Last(n),
        Err(e) => DumpRequest::Refused(e),
    }
}

/// The last `n` lines of a text, each with its line feed.
pub fn tail(data: &str, n: usize) -> (r: String)
    ensures
        r@ == with_feeds(last_of(lines_of(data@), n as nat)),
{
    let all = lines(data);
    let ghost v = views(all@);
    assert(v.len() == all@.len());
    let from: usize = if all.len() > n {
        all.len() - n
    } else {
        0
    };
    let ghost end = last_of(v, n as nat);
    assert(end =~= v.skip(from as int));
    let mut out = String::new();
    assert(end.take(0) =~= Seq::<Seq<char>>::empty());
    for i in from..all.len()
        invariant
            v == views(all@),
            end == v.skip(from as int),
            from <= all@.len(),
            out@ == with_feeds(end.take(i - from)),
    {
        let ghost k = (i - from) as int;
        assert(end.take(k + 1).drop_last() =~= end.take(k));
        assert(end.take(k + 1).last() == all@[i as int]@);
        out.append(all[i].as_str());
        out.append("\n");
    }
    assert(end.take(end.len() as int) =~= end);
    out
}

/// No more lines are ever asked for than 2000, and never none.
pub proof fn lines_asked_are_bounded(args: Seq<char>)
    ensures
        lines_asked(args) matches Ok(n) ==> 1 <= n <= MAX_LINES,
{
}

} // verus!
