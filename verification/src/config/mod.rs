//! The configuration: plans of idle steps, global knobs and profiles.
//!
//! `types` holds the data and what stands for it in contracts, `select` the rules by which a
//! profile and a power source pick the configuration that is in effect. `references` tests that
//! looking up what a parsed file refers to comes to an end, `source` reads its single values,
//! `parse` the blocks of a plan, `document` a whole file, and `load` says in which places a file is
//! looked for. `pattern` holds the patterns by which apps are named. `reading` states that what is
//! written is what is set, `following` where references lead, and `laws` what a file comes to.

pub mod document;
pub mod following;
pub mod laws;
pub mod load;
pub mod parse;
pub mod pattern;
pub mod reading;
pub mod references;
pub mod select;
pub mod source;
pub mod types;
