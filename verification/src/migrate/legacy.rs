//! Reading the form of earlier releases.

use vstd::prelude::*;

use crate::text::split::{first_white, lines, lines_of, split_once_white};
use crate::text::strings::{
    cat, ends_with, has_prefix, has_suffix, replace_char, starts_with, str_eq, stripped_end, trim,
    trim_end_char, trimmed, views, with_char_replaced,
};

verus! {

// ---------------------------------------------------------------------------------------------
// What a file holds
// ---------------------------------------------------------------------------------------------

/// A key and what follows it.
#[derive(Debug)]
pub struct Line {
    pub key: String,
    pub raw_value: String,
}

#[verifier::ext_equal]
pub struct LineModel {
    pub key: Seq<char>,
    pub raw_value: Seq<char>,
}

impl View for Line {
    type V = LineModel;

    open spec fn view(&self) -> LineModel {
        LineModel { key: self.key@, raw_value: self.raw_value@ }
    }
}

pub open spec fn line_views(v: Seq<Line>) -> Seq<LineModel> {
    v.map_values(|l: Line| l@)
}

/// A block of properties.
#[derive(Debug)]
pub struct OldBlock {
    pub name: String,
    pub lines: Vec<Line>,
}

#[verifier::ext_equal]
pub struct OldBlockModel {
    pub name: Seq<char>,
    pub lines: Seq<LineModel>,
}

impl View for OldBlock {
    type V = OldBlockModel;

    open spec fn view(&self) -> OldBlockModel {
        OldBlockModel { name: self.name@, lines: line_views(self.lines@) }
    }
}

pub open spec fn block_views(v: Seq<OldBlock>) -> Seq<OldBlockModel> {
    v.map_values(|b: OldBlock| b@)
}

/// A profile.
#[derive(Debug)]
pub struct OldProfile {
    pub name: String,
    pub lines: Vec<Line>,
    pub blocks: Vec<OldBlock>,
}

#[verifier::ext_equal]
pub struct OldProfileModel {
    pub name: Seq<char>,
    pub lines: Seq<LineModel>,
    pub blocks: Seq<OldBlockModel>,
}

impl View for OldProfile {
    type V = OldProfileModel;

    open spec fn view(&self) -> OldProfileModel {
        OldProfileModel {
            name: self.name@,
            lines: line_views(self.lines@),
            blocks: block_views(self.blocks@),
        }
    }
}

pub open spec fn old_profile_views(v: Seq<OldProfile>) -> Seq<OldProfileModel> {
    v.map_values(|p: OldProfile| p@)
}

/// A whole file: what describes it, what stands in the `stasis:` block, the plans for the power
/// sources, and the profiles.
#[derive(Debug)]
pub struct OldFile {
    pub meta_lines: Vec<String>,
    /// What stands outside of the blocks that are known.
    pub globals: Vec<Line>,
    pub stasis_globals: Vec<Line>,
    pub blocks: Vec<OldBlock>,
    pub on_ac: Vec<OldBlock>,
    pub on_battery: Vec<OldBlock>,
    pub profiles: Vec<OldProfile>,
}

#[verifier::ext_equal]
pub struct OldFileModel {
    pub meta_lines: Seq<Seq<char>>,
    pub globals: Seq<LineModel>,
    pub stasis_globals: Seq<LineModel>,
    pub blocks: Seq<OldBlockModel>,
    pub on_ac: Seq<OldBlockModel>,
    pub on_battery: Seq<OldBlockModel>,
    pub profiles: Seq<OldProfileModel>,
}

impl View for OldFile {
    type V = OldFileModel;

    open spec fn view(&self) -> OldFileModel {
        OldFileModel {
            meta_lines: views(self.meta_lines@),
            globals: line_views(self.globals@),
            stasis_globals: line_views(self.stasis_globals@),
            blocks: block_views(self.blocks@),
            on_ac: block_views(self.on_ac@),
            on_battery: block_views(self.on_battery@),
            profiles: old_profile_views(self.profiles@),
        }
    }
}

impl OldFileModel {
    pub open spec fn empty() -> OldFileModel {
        OldFileModel {
            meta_lines: Seq::empty(),
            globals: Seq::empty(),
            stasis_globals: Seq::empty(),
            blocks: Seq::empty(),
            on_ac: Seq::empty(),
            on_battery: Seq::empty(),
            profiles: Seq::empty(),
        }
    }
}

// ---------------------------------------------------------------------------------------------
// Reading a line
// ---------------------------------------------------------------------------------------------

/// The block that a line stands in.
#[derive(Debug, Clone, Copy, PartialEq, Eq, Structural)]
pub enum Ctx {
    Stasis,
    Profiles,
    Profile,
    OnAc,
    OnBattery,
    DesktopBlock,
    AcBlock,
    BatteryBlock,
    ProfileBlock,
}

/// What was read so far, and the blocks that are open, the innermost last.
#[verifier::ext_equal]
pub struct Reading {
    pub file: OldFileModel,
    pub open: Seq<Ctx>,
}

pub open spec fn innermost(open: Seq<Ctx>) -> Option<Ctx> {
    if open.len() == 0 {
        None
    } else {
        Some(open.last())
    }
}

/// The blocks with a line put into the last one.
pub open spec fn in_last_block(blocks: Seq<OldBlockModel>, line: LineModel) -> Seq<OldBlockModel> {
    if blocks.len() == 0 {
        blocks
    } else {
        blocks.update(
            blocks.len() - 1,
            OldBlockModel { lines: blocks.last().lines.push(line), ..blocks.last() },
        )
    }
}

/// The profiles with a line put into the last one.
pub open spec fn in_last_profile(
    profiles: Seq<OldProfileModel>,
    line: LineModel,
) -> Seq<OldProfileModel> {
    if profiles.len() == 0 {
        profiles
    } else {
        profiles.update(
            profiles.len() - 1,
            OldProfileModel { lines: profiles.last().lines.push(line), ..profiles.last() },
        )
    }
}

/// The profiles with other blocks in the last one.
pub open spec fn with_last_blocks(
    profiles: Seq<OldProfileModel>,
    blocks: Seq<OldBlockModel>,
) -> Seq<OldProfileModel> {
    if profiles.len() == 0 {
        profiles
    } else {
        profiles.update(profiles.len() - 1, OldProfileModel { blocks, ..profiles.last() })
    }
}

pub open spec fn new_block(name: Seq<char>) -> OldBlockModel {
    OldBlockModel { name, lines: Seq::empty() }
}

impl Reading {
    pub open spec fn entering(self, file: OldFileModel, ctx: Ctx) -> Reading {
        Reading { file, open: self.open.push(ctx) }
    }

    /// A block begins. A block in a place where none is known is passed over.
    pub open spec fn block_begins(self, name: Seq<char>) -> Reading {
        let f = self.file;
        match innermost(self.open) {
            None => if name == "stasis"@ {
                self.entering(f, Ctx::Stasis)
            } else if name == "profiles"@ {
                self.entering(f, Ctx::Profiles)
            } else {
                self
            },
            Some(Ctx::Stasis) => if name == "on_ac"@ {
                self.entering(f, Ctx::OnAc)
            } else if name == "on_battery"@ {
                self.entering(f, Ctx::OnBattery)
            } else {
                self.entering(
                    OldFileModel { blocks: f.blocks.push(new_block(name)), ..f },
                    Ctx::DesktopBlock,
                )
            },
            Some(Ctx::Profiles) => self.entering(
                OldFileModel {
                    profiles: f.profiles.push(
                        OldProfileModel { name, lines: Seq::empty(), blocks: Seq::empty() },
                    ),
                    ..f
                },
                Ctx::Profile,
            ),
            Some(Ctx::OnAc) => self.entering(
                OldFileModel { on_ac: f.on_ac.push(new_block(name)), ..f },
                Ctx::AcBlock,
            ),
            Some(Ctx::OnBattery) => self.entering(
                OldFileModel { on_battery: f.on_battery.push(new_block(name)), ..f },
                Ctx::BatteryBlock,
            ),
            Some(Ctx::Profile) => self.entering(
                OldFileModel {
                    profiles: with_last_blocks(
                        f.profiles,
                        f.profiles.last().blocks.push(new_block(name)),
                    ),
                    ..f
                },
                Ctx::ProfileBlock,
            ),
            _ => self,
        }
    }

    /// A property is set, in the innermost open block.
    pub open spec fn property(self, line: LineModel) -> Reading {
        let f = self.file;
        let file = match innermost(self.open) {
            None | Some(Ctx::Profiles) => OldFileModel { globals: f.globals.push(line), ..f },
            Some(Ctx::Stasis) | Some(Ctx::OnAc) | Some(Ctx::OnBattery) => OldFileModel {
                stasis_globals: f.stasis_globals.push(line),
                ..f
            },
            Some(Ctx::Profile) => OldFileModel {
                profiles: in_last_profile(f.profiles, line),
                ..f
            },
            Some(Ctx::DesktopBlock) => OldFileModel { blocks: in_last_block(f.blocks, line), ..f },
            Some(Ctx::AcBlock) => OldFileModel { on_ac: in_last_block(f.on_ac, line), ..f },
            Some(Ctx::BatteryBlock) => OldFileModel {
                on_battery: in_last_block(f.on_battery, line),
                ..f
            },
            Some(Ctx::ProfileBlock) => OldFileModel {
                profiles: with_last_blocks(
                    f.profiles,
                    in_last_block(f.profiles.last().blocks, line),
                ),
                ..f
            },
        };
        Reading { file, ..self }
    }

    /// One line is read. Fails on a line that is neither a block nor a property.
    pub open spec fn read(self, raw: Seq<char>) -> Result<Reading, Seq<char>> {
        let line = trimmed(raw);
        if line.len() == 0 || has_prefix(line, "#"@) {
            Ok(self)
        } else if has_prefix(line, "@"@) {
            Ok(
                Reading {
                    file: OldFileModel {
                        meta_lines: self.file.meta_lines.push(raw),
                        ..self.file
                    },
                    ..self
                },
            )
        } else if line == "end"@ {
            Ok(
                Reading {
                    open: if self.open.len() > 0 {
                        self.open.drop_last()
                    } else {
                        self.open
                    },
                    ..self
                },
            )
        } else if has_suffix(line, ":"@) {
            Ok(self.block_begins(trimmed(stripped_end(line, ':'))))
        } else {
            match property_of(line) {
                Some(l) => Ok(self.property(l)),
                None => Err("cannot parse line: "@ + line),
            }
        }
    }
}

/// A key as it is written today: with underscores for dashes.
pub open spec fn key_of(k: Seq<char>) -> Seq<char> {
    with_char_replaced(trimmed(k), '-', '_')
}

/// The property that a line sets: a key, white space, and the rest.
pub open spec fn property_of(line: Seq<char>) -> Option<LineModel> {
    let i = first_white(line) as int;
    if i < line.len() {
        Some(LineModel { key: key_of(line.take(i)), raw_value: trimmed(line.skip(i + 1)) })
    } else {
        None
    }
}

/// The lines from `i` on are read.
pub open spec fn read_from(r: Reading, all: Seq<Seq<char>>, i: int) -> Result<Reading, Seq<char>>
    decreases all.len() - i,
{
    if !(0 <= i < all.len()) {
        Ok(r)
    } else {
        match r.read(all[i]) {
            Ok(next) => read_from(next, all, i + 1),
            Err(e) => Err(e),
        }
    }
}

/// What a file of the earlier form holds. Fails with a word on the first line that cannot be read.
pub open spec fn old_file(text: Seq<char>) -> Result<OldFileModel, Seq<char>> {
    match read_from(
        Reading { file: OldFileModel::empty(), open: Seq::empty() },
        lines_of(text),
        0,
    ) {
        Ok(r) => Ok(r.file),
        Err(e) => Err(e),
    }
}

// ---------------------------------------------------------------------------------------------
// Functions
// ---------------------------------------------------------------------------------------------

fn push_line(lines: &mut Vec<Line>, line: Line)
    ensures
        line_views(final(lines)@) == line_views(old(lines)@).push(line@),
{
    lines.push(line);
    assert(line_views(lines@) =~= line_views(old(lines)@).push(line@));
}

fn push_block(blocks: &mut Vec<OldBlock>, name: String)
    ensures
        block_views(final(blocks)@) == block_views(old(blocks)@).push(new_block(name@)),
{
    let b = OldBlock { name, lines: Vec::new() };
    assert(b@ =~= new_block(name@));
    blocks.push(b);
    assert(block_views(blocks@) =~= block_views(old(blocks)@).push(new_block(name@)));
}

fn push_in_last_block(blocks: &mut Vec<OldBlock>, line: Line)
    ensures
        block_views(final(blocks)@) == in_last_block(block_views(old(blocks)@), line@),
{
    let ghost before = block_views(blocks@);
    assert(before.len() == blocks@.len());
    match blocks.pop() {
        None => {},
        Some(last) => {
            let mut b = last;
            assert(before.last() == b@);
            push_line(&mut b.lines, line);
            blocks.push(b);
            assert(block_views(blocks@) =~= in_last_block(before, line@));
        },
    }
}

fn push_in_last_profile(profiles: &mut Vec<OldProfile>, line: Line)
    ensures
        old_profile_views(final(profiles)@) == in_last_profile(
            old_profile_views(old(profiles)@),
            line@,
        ),
{
    let ghost before = old_profile_views(profiles@);
    assert(before.len() == profiles@.len());
    match profiles.pop() {
        None => {},
        Some(last) => {
            let mut p = last;
            assert(before.last() == p@);
            push_line(&mut p.lines, line);
            profiles.push(p);
            assert(old_profile_views(profiles@) =~= in_last_profile(before, line@));
        },
    }
}

fn push_profile_block(profiles: &mut Vec<OldProfile>, name: String)
    ensures
        ({
            let before = old_profile_views(old(profiles)@);
            old_profile_views(final(profiles)@) == with_last_blocks(
                before,
                before.last().blocks.push(new_block(name@)),
            )
        }),
{
    let ghost before = old_profile_views(profiles@);
    let ghost n = name@;
    assert(before.len() == profiles@.len());
    match profiles.pop() {
        None => {},
        Some(last) => {
            let mut p = last;
            assert(before.last() == p@);
            push_block(&mut p.blocks, name);
            profiles.push(p);
            assert(old_profile_views(profiles@) =~= with_last_blocks(
                before,
                before.last().blocks.push(new_block(n)),
            ));
        },
    }
}

fn push_in_last_profile_block(profiles: &mut Vec<OldProfile>, line: Line)
    ensures
        ({
            let before = old_profile_views(old(profiles)@);
            old_profile_views(final(profiles)@) == with_last_blocks(
                before,
                in_last_block(before.last().blocks, line@),
            )
        }),
{
    let ghost before = old_profile_views(profiles@);
    assert(before.len() == profiles@.len());
    match profiles.pop() {
        None => {},
        Some(last) => {
            let mut p = last;
            assert(before.last() == p@);
            push_in_last_block(&mut p.blocks, line);
            profiles.push(p);
            assert(old_profile_views(profiles@) =~= with_last_blocks(
                before,
                in_last_block(before.last().blocks, line@),
            ));
        },
    }
}

fn split_kv(line: &str) -> (r: Option<Line>)
    ensures
        match r {
            Some(l) => property_of(line@) == Some(l@),
            None => property_of(line@) is None,
        },
{
    match split_once_white(line) {
        None => None,
        Some(p) => {
            let k = trim(p.0.as_str());
            Some(
                Line {
                    key: replace_char(k.as_str(), '-', '_'),
                    raw_value: trim(p.1.as_str()),
                },
            )
        },
    }
}

fn innermost_of(open: &Vec<Ctx>) -> (r: Option<Ctx>)
    ensures
        r == innermost(open@),
{
    if open.len() == 0 {
        None
    } else {
        Some(open[open.len() - 1])
    }
}

fn begin_block(f: &mut OldFile, open: &mut Vec<Ctx>, name: String)
    ensures
        (Reading { file: final(f)@, open: final(open)@ }) == (Reading {
            file: old(f)@,
            open: old(open)@,
        }).block_begins(name@),
{
    let ghost before = Reading { file: f@, open: open@ };
    let ghost n = name@;
    match innermost_of(open) {
        None => {
            if str_eq(name.as_str(), "stasis") {
                open.push(Ctx::Stasis);
            } else if str_eq(name.as_str(), "profiles") {
                open.push(Ctx::Profiles);
            }
        },
        Some(Ctx::Stasis) => {
            if str_eq(name.as_str(), "on_ac") {
                open.push(Ctx::OnAc);
            } else if str_eq(name.as_str(), "on_battery") {
                open.push(Ctx::OnBattery);
            } else {
                push_block(&mut f.blocks, name);
                open.push(Ctx::DesktopBlock);
            }
        },
        Some(Ctx::Profiles) => {
            let p = OldProfile { name, lines: Vec::new(), blocks: Vec::new() };
            assert(p@ =~= OldProfileModel { name: n, lines: Seq::empty(), blocks: Seq::empty() });
            let ghost all = old_profile_views(f.profiles@);
            f.profiles.push(p);
            assert(old_profile_views(f.profiles@) =~= all.push(p@));
            open.push(Ctx::Profile);
        },
        Some(Ctx::OnAc) => {
            push_block(&mut f.on_ac, name);
            open.push(Ctx::AcBlock);
        },
        Some(Ctx::OnBattery) => {
            push_block(&mut f.on_battery, name);
            open.push(Ctx::BatteryBlock);
        },
        Some(Ctx::Profile) => {
            push_profile_block(&mut f.profiles, name);
            open.push(Ctx::ProfileBlock);
        },
        _ => {},
    }
    assert((Reading { file: f@, open: open@ }) =~= before.block_begins(n));
}

fn add_property(f: &mut OldFile, open: &Vec<Ctx>, line: Line)
    ensures
        (Reading { file: final(f)@, open: open@ }) == (Reading {
            file: old(f)@,
            open: open@,
        }).property(line@),
{
    match innermost_of(open) {
        None | Some(Ctx::Profiles) => {
            push_line(&mut f.globals, line);
        },
        Some(Ctx::Stasis) | Some(Ctx::OnAc) | Some(Ctx::OnBattery) => {
            push_line(&mut f.stasis_globals, line);
        },
        Some(Ctx::Profile) => {
            push_in_last_profile(&mut f.profiles, line);
        },
        Some(Ctx::DesktopBlock) => {
            push_in_last_block(&mut f.blocks, line);
        },
        Some(Ctx::AcBlock) => {
            push_in_last_block(&mut f.on_ac, line);
        },
        Some(Ctx::BatteryBlock) => {
            push_in_last_block(&mut f.on_battery, line);
        },
        Some(Ctx::ProfileBlock) => {
            push_in_last_profile_block(&mut f.profiles, line);
        },
    }
}

fn read_line(f: &mut OldFile, open: &mut Vec<Ctx>, raw: &String) -> (r: Result<(), String>)
    ensures
        ({
            let next = (Reading { file: old(f)@, open: old(open)@ }).read(raw@);
            match r {
                Ok(_) => next == Ok::<Reading, Seq<char>>(
                    Reading { file: final(f)@, open: final(open)@ },
                ),
                Err(e) => next == Err::<Reading, Seq<char>>(e@),
            }
        }),
{
    let line = trim(raw.as_str());
    if line.as_str().unicode_len() == 0 || starts_with(line.as_str(), "#") {
        return Ok(());
    }
    if starts_with(line.as_str(), "@") {
        let ghost all = views(f.meta_lines@);
        f.meta_lines.push(raw.clone());
        assert(views(f.meta_lines@) =~= all.push(raw@));
        return Ok(());
    }
    if str_eq(line.as_str(), "end") {
        let _ = open.pop();
        return Ok(());
    }
    if ends_with(line.as_str(), ":") {
        let bare = trim_end_char(line.as_str(), ':');
        begin_block(f, open, trim(bare.as_str()));
        return Ok(());
    }
    match split_kv(line.as_str()) {
        None => Err(cat("cannot parse line: ", line.as_str())),
        Some(l) => {
            add_property(f, open, l);
            Ok(())
        },
    }
}

/// Reads a file of the earlier form; fails with a word on the first line that cannot be read.
pub fn parse_old(text: &str) -> (r: Result<OldFile, String>)
    ensures
        match r {
            Ok(f) => old_file(text@) == Ok::<OldFileModel, Seq<char>>(f@),
            Err(e) => old_file(text@) == Err::<OldFileModel, Seq<char>>(e@),
        },
{
    let all = lines(text);
    let ghost v = views(all@);
    let mut f = OldFile {
        meta_lines: Vec::new(),
        globals: Vec::new(),
        stasis_globals: Vec::new(),
        blocks: Vec::new(),
        on_ac: Vec::new(),
        on_battery: Vec::new(),
        profiles: Vec::new(),
    };
    assert(f@ =~= OldFileModel::empty());
    let mut open: Vec<Ctx> = Vec::new();
    let ghost whole = read_from(Reading { file: f@, open: open@ }, v, 0);
    assert(open@ =~= Seq::<Ctx>::empty());
    for i in 0..all.len()
        invariant
            v == views(all@),
            v == lines_of(text@),
            whole == read_from(
                Reading { file: OldFileModel::empty(), open: Seq::empty() },
                v,
                0,
            ),
            whole == read_from(Reading { file: f@, open: open@ }, v, i as int),
    {
        assert(v[i as int] == all@[i as int]@);
        match read_line(&mut f, &mut open, &all[i]) {
            Err(e) => {
                return Err(e);
            },
            Ok(_) => {},
        }
    }
    Ok(f)
}

} // verus!
