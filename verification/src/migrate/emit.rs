//! Writing what was read in the current form.

use vstd::prelude::*;

use super::legacy::{
    block_views, line_views, old_profile_views, Line, LineModel, OldBlock, OldBlockModel, OldFile,
    OldFileModel, OldProfile, OldProfileModel,
};
use crate::text::split::{split_whitespace, words_of};
use crate::text::strings::{
    contains, has_part, opt_view, push_spaces, replace_char, spaces, str_eq, trim, trimmed, views,
    with_char_replaced,
};

verus! {

// ---------------------------------------------------------------------------------------------
// What is written
// ---------------------------------------------------------------------------------------------

/// The name of a block as it is written today.
pub open spec fn block_name(b: OldBlockModel) -> Seq<char> {
    with_char_replaced(trimmed(b.name), '-', '_')
}

/// The block locks the screen through the session manager.
pub open spec fn locks_session(b: OldBlockModel) -> bool {
    block_name(b) == "lock_screen"@ && exists|i: int|
        0 <= i < b.lines.len() && line_locks_session(#[trigger] b.lines[i])
}

pub open spec fn line_locks_session(l: LineModel) -> bool {
    let words = words_of(trimmed(l.raw_value));
    l.key == "use_loginctl"@ && words.len() > 0 && words[0] == "true"@ || l.key == "command"@
        && has_part(l.raw_value, "loginctl lock-session"@)
}

pub open spec fn some_locks_session(blocks: Seq<OldBlockModel>) -> bool {
    exists|i: int| 0 <= i < blocks.len() && locks_session(#[trigger] blocks[i])
}

/// Some block of the file locks the screen through the session manager.
pub open spec fn file_locks_session(f: OldFileModel) -> bool {
    some_locks_session(f.blocks) || some_locks_session(f.on_ac) || some_locks_session(f.on_battery)
        || exists|i: int|
        0 <= i < f.profiles.len() && some_locks_session((#[trigger] f.profiles[i]).blocks)
}

/// The file sets this key for the whole configuration.
pub open spec fn sets_key(lines: Seq<LineModel>, key: Seq<char>) -> bool {
    exists|i: int| 0 <= i < lines.len() && (#[trigger] lines[i]).key == key
}

/// A line of its own for a property.
pub open spec fn property_line(indent: nat, key: Seq<char>, value: Seq<char>) -> Seq<char> {
    spaces(indent) + key + " "@ + value + "\n"@
}

/// A key with underscores for dashes.
pub open spec fn underscored(key: Seq<char>) -> Seq<char> {
    with_char_replaced(key, '-', '_')
}

/// The name of a key today.
pub open spec fn todays_key(key: Seq<char>) -> Seq<char> {
    if key == "notify_before_command"@ {
        "notify_before_action"@
    } else if key == "listen_browser_dbus_inhibit"@ {
        "enable_dbus_inhibit"@
    } else {
        underscored(key)
    }
}

/// The first `i` properties that hold for a whole configuration, without those that are gone.
pub open spec fn globals_text(lines: Seq<LineModel>, i: int) -> Seq<char>
    decreases i,
{
    if i <= 0 {
        Seq::empty()
    } else {
        let before = globals_text(lines, i - 1);
        let l = lines[i - 1];
        if l.key == "respect_idle_inhibitors"@ || l.key == "use_loginctl"@ {
            before
        } else {
            before + property_line(2, todays_key(l.key), l.raw_value)
        }
    }
}

/// A key of a block that has its own place. Those of several words can have dashes, too.
pub open spec fn is_placed(key: Seq<char>) -> bool {
    key == "timeout"@ || key == "command"@ || key == "resume_command"@ || key == "resume-command"@
        || key == "lock_command"@ || key == "lock-command"@ || key == "notification"@ || key
        == "notify_seconds_before"@ || key == "notify-seconds-before"@ || key == "use_loginctl"@
}

/// The first `i` properties of a block that have no place of their own.
pub open spec fn others_text(lines: Seq<LineModel>, i: int, indent: nat) -> Seq<char>
    decreases i,
{
    if i <= 0 {
        Seq::empty()
    } else {
        let before = others_text(lines, i - 1, indent);
        let l = lines[i - 1];
        if is_placed(l.key) {
            before
        } else {
            before + property_line(indent, underscored(l.key), l.raw_value)
        }
    }
}

/// The value that the first `i` lines set a key to, in one of its spellings: the last one counts.
pub open spec fn value_of(
    lines: Seq<LineModel>,
    i: int,
    key: Seq<char>,
    dashed: Seq<char>,
) -> Option<Seq<char>>
    decreases i,
{
    if i <= 0 {
        None
    } else if lines[i - 1].key == key || lines[i - 1].key == dashed {
        Some(lines[i - 1].raw_value)
    } else {
        value_of(lines, i - 1, key, dashed)
    }
}

/// The line of a property, if it is set.
pub open spec fn placed_line(indent: nat, key: Seq<char>, value: Option<Seq<char>>) -> Seq<char> {
    match value {
        Some(v) => property_line(indent, key, v),
        None => Seq::empty(),
    }
}

/// What takes the place of the command in a block: a lock block that asked the session manager
/// runs the locker itself today.
pub open spec fn command_text(
    indent: nat,
    name: Seq<char>,
    command: Option<Seq<char>>,
    locker: Option<Seq<char>>,
) -> Seq<char> {
    match command {
        Some(c) if name == "lock_screen"@ && has_part(c, "loginctl lock-session"@) => match locker {
            Some(l) => property_line(indent, "command"@, l),
            None => spaces(indent) + missing_locker(),
        },
        _ => placed_line(indent, "command"@, command),
    }
}

/// The remark in place of a locker that is not known.
pub open spec fn missing_locker() -> Seq<char> {
    "# TODO: lock_screen.command missing (was loginctl lock-session)\n"@
}

/// A block.
pub open spec fn block_text(b: OldBlockModel, indent: nat) -> Seq<char> {
    let n = b.lines.len() as int;
    let inner = indent + 2;
    spaces(indent) + block_name(b) + ":\n"@ + others_text(b.lines, n, inner) + placed_line(
        inner,
        "timeout"@,
        value_of(b.lines, n, "timeout"@, "timeout"@),
    ) + command_text(
        inner,
        block_name(b),
        value_of(b.lines, n, "command"@, "command"@),
        value_of(b.lines, n, "lock_command"@, "lock-command"@),
    ) + placed_line(
        inner,
        "resume_command"@,
        value_of(b.lines, n, "resume_command"@, "resume-command"@),
    ) + placed_line(
        inner,
        "notification"@,
        value_of(b.lines, n, "notification"@, "notification"@),
    ) + placed_line(
        inner,
        "notify_seconds_before"@,
        value_of(b.lines, n, "notify_seconds_before"@, "notify-seconds-before"@),
    ) + spaces(indent) + "end\n"@
}

/// The first `i` blocks.
pub open spec fn blocks_text(blocks: Seq<OldBlockModel>, i: int, indent: nat) -> Seq<char>
    decreases i,
{
    if i <= 0 {
        Seq::empty()
    } else {
        blocks_text(blocks, i - 1, indent) + block_text(blocks[i - 1], indent)
    }
}

/// The plan of a power source, if it has any steps.
pub open spec fn source_text(head: Seq<char>, blocks: Seq<OldBlockModel>) -> Seq<char> {
    if blocks.len() == 0 {
        Seq::empty()
    } else {
        head + blocks_text(blocks, blocks.len() as int, 4) + "  end\n"@
    }
}

/// A profile: a block of its own that overlays the default.
pub open spec fn profile_text(p: OldProfileModel) -> Seq<char> {
    p.name + ":\n  mode \"overlay\"\n"@ + globals_text(p.lines, p.lines.len() as int) + blocks_text(
        p.blocks,
        p.blocks.len() as int,
        2,
    ) + "end\n\n"@
}

/// The first `i` profiles.
pub open spec fn profiles_text(profiles: Seq<OldProfileModel>, i: int) -> Seq<char>
    decreases i,
{
    if i <= 0 {
        Seq::empty()
    } else {
        profiles_text(profiles, i - 1) + profile_text(profiles[i - 1])
    }
}

/// The first `i` lines that describe the file.
pub open spec fn meta_text(lines: Seq<Seq<char>>, i: int) -> Seq<char>
    decreases i,
{
    if i <= 0 {
        Seq::empty()
    } else {
        meta_text(lines, i - 1) + lines[i - 1] + "\n"@
    }
}

/// What stands before the default block.
pub open spec fn head_text(f: OldFileModel) -> Seq<char> {
    let meta = meta_text(f.meta_lines, f.meta_lines.len() as int);
    if f.meta_lines.len() > 0 {
        meta + "\n"@
    } else {
        meta
    }
}

/// What stands behind the first line of the default block.
pub open spec fn body_text(f: OldFileModel) -> Seq<char> {
    (if file_locks_session(f) && !sets_key(f.stasis_globals, "enable_loginctl"@) {
        "  enable_loginctl true\n"@
    } else {
        Seq::empty()
    }) + globals_text(f.stasis_globals, f.stasis_globals.len() as int) + blocks_text(
        f.blocks,
        f.blocks.len() as int,
        2,
    ) + source_text("\n  ac:\n"@, f.on_ac) + source_text("\n  battery:\n"@, f.on_battery)
        + "end\n\n"@ + profiles_text(f.profiles, f.profiles.len() as int)
}

/// The whole file in the current form.
pub open spec fn file_text(f: OldFileModel) -> Seq<char> {
    head_text(f) + "default:\n"@ + body_text(f)
}

// ---------------------------------------------------------------------------------------------
// Writing it
// ---------------------------------------------------------------------------------------------

fn written_name(b: &OldBlock) -> (r: String)
    ensures
        r@ == block_name(b@),
{
    let t = trim(b.name.as_str());
    replace_char(t.as_str(), '-', '_')
}

fn line_wants_loginctl(l: &Line) -> (r: bool)
    ensures
        r == line_locks_session(l@),
{
    let t = trim(l.raw_value.as_str());
    let words = split_whitespace(t.as_str());
    assert(views(words@).len() == words@.len());
    let first_true = if words.len() > 0 {
        assert(views(words@)[0] == words@[0]@);
        str_eq(words[0].as_str(), "true")
    } else {
        false
    };
    str_eq(l.key.as_str(), "use_loginctl") && first_true || str_eq(l.key.as_str(), "command")
        && contains(l.raw_value.as_str(), "loginctl lock-session")
}

fn block_wants_loginctl(b: &OldBlock) -> (r: bool)
    ensures
        r == locks_session(b@),
{
    let name = written_name(b);
    if !str_eq(name.as_str(), "lock_screen") {
        return false;
    }
    let ghost v = line_views(b.lines@);
    for i in 0..b.lines.len()
        invariant
            v == line_views(b.lines@),
            b@.lines == v,
            block_name(b@) == "lock_screen"@,
            forall|k: int| 0 <= k < i ==> !line_locks_session(#[trigger] v[k]),
    {
        assert(v[i as int] == b.lines@[i as int]@);
        if line_wants_loginctl(&b.lines[i]) {
            assert(line_locks_session(b@.lines[i as int]));
            return true;
        }
    }
    false
}

fn any_wants_loginctl(blocks: &Vec<OldBlock>) -> (r: bool)
    ensures
        r == some_locks_session(block_views(blocks@)),
{
    let ghost v = block_views(blocks@);
    for i in 0..blocks.len()
        invariant
            v == block_views(blocks@),
            forall|k: int| 0 <= k < i ==> !locks_session(#[trigger] v[k]),
    {
        assert(v[i as int] == blocks@[i as int]@);
        if block_wants_loginctl(&blocks[i]) {
            assert(locks_session(v[i as int]));
            return true;
        }
    }
    false
}

fn old_wants_loginctl(f: &OldFile) -> (r: bool)
    ensures
        r == file_locks_session(f@),
{
    if any_wants_loginctl(&f.blocks) || any_wants_loginctl(&f.on_ac) || any_wants_loginctl(
        &f.on_battery,
    ) {
        return true;
    }
    let ghost v = old_profile_views(f.profiles@);
    for i in 0..f.profiles.len()
        invariant
            v == old_profile_views(f.profiles@),
            f@.profiles == v,
            !some_locks_session(f@.blocks),
            !some_locks_session(f@.on_ac),
            !some_locks_session(f@.on_battery),
            forall|k: int| 0 <= k < i ==> !some_locks_session((#[trigger] v[k]).blocks),
    {
        assert(v[i as int] == f.profiles@[i as int]@);
        if any_wants_loginctl(&f.profiles[i].blocks) {
            assert(some_locks_session(f@.profiles[i as int].blocks));
            return true;
        }
    }
    false
}

fn has_key(lines: &Vec<Line>, key: &str) -> (r: bool)
    ensures
        r == sets_key(line_views(lines@), key@),
{
    let ghost v = line_views(lines@);
    for i in 0..lines.len()
        invariant
            v == line_views(lines@),
            forall|k: int| 0 <= k < i ==> (#[trigger] v[k]).key != key@,
    {
        assert(v[i as int] == lines@[i as int]@);
        if str_eq(lines[i].key.as_str(), key) {
            assert(v[i as int].key == key@);
            return true;
        }
    }
    false
}

fn push_property(out: &mut String, indent: usize, key: &str, value: &str)
    ensures
        final(out)@ == old(out)@ + property_line(indent as nat, key@, value@),
{
    push_spaces(out, indent);
    out.append(key);
    out.append(" ");
    out.append(value);
    out.append("\n");
    assert(out@ =~= old(out)@ + property_line(indent as nat, key@, value@));
}

fn push_placed(out: &mut String, indent: usize, key: &str, value: &Option<String>)
    ensures
        final(out)@ == old(out)@ + placed_line(indent as nat, key@, opt_view(*value)),
{
    if let Some(v) = value {
        push_property(out, indent, key, v.as_str());
    }
    assert(out@ =~= old(out)@ + placed_line(indent as nat, key@, opt_view(*value)));
}

fn emit_globals(out: &mut String, lines: &Vec<Line>)
    ensures
        final(out)@ == old(out)@ + globals_text(line_views(lines@), lines@.len() as int),
{
    let ghost v = line_views(lines@);
    let ghost given = out@;
    assert(given + Seq::<char>::empty() =~= given);
    for i in 0..lines.len()
        invariant
            v == line_views(lines@),
            out@ == given + globals_text(v, i as int),
    {
        let l = &lines[i];
        assert(v[i as int] == l@);
        if !str_eq(l.key.as_str(), "respect_idle_inhibitors") && !str_eq(
            l.key.as_str(),
            "use_loginctl",
        ) {
            let key = if str_eq(l.key.as_str(), "notify_before_command") {
                String::from_str("notify_before_action")
            } else if str_eq(l.key.as_str(), "listen_browser_dbus_inhibit") {
                String::from_str("enable_dbus_inhibit")
            } else {
                replace_char(l.key.as_str(), '-', '_')
            };
            push_property(out, 2, key.as_str(), l.raw_value.as_str());
            assert(out@ =~= given + globals_text(v, i + 1));
        }
    }
}

fn last_value(lines: &Vec<Line>, key: &str, dashed: &str) -> (r: Option<String>)
    ensures
        opt_view(r) == value_of(line_views(lines@), lines@.len() as int, key@, dashed@),
{
    let ghost v = line_views(lines@);
    let mut i: usize = lines.len();
    while i > 0
        invariant
            i <= lines@.len(),
            v == line_views(lines@),
            value_of(v, lines@.len() as int, key@, dashed@) == value_of(
                v,
                i as int,
                key@,
                dashed@,
            ),
        decreases i,
    {
        i -= 1;
        assert(v[i as int] == lines@[i as int]@);
        if str_eq(lines[i].key.as_str(), key) || str_eq(lines[i].key.as_str(), dashed) {
            return Some(lines[i].raw_value.clone());
        }
    }
    None
}

fn emit_others(out: &mut String, lines: &Vec<Line>, indent: usize)
    ensures
        final(out)@ == old(out)@ + others_text(
            line_views(lines@),
            lines@.len() as int,
            indent as nat,
        ),
{
    let ghost v = line_views(lines@);
    let ghost given = out@;
    assert(given + Seq::<char>::empty() =~= given);
    for i in 0..lines.len()
        invariant
            v == line_views(lines@),
            out@ == given + others_text(v, i as int, indent as nat),
    {
        let l = &lines[i];
        assert(v[i as int] == l@);
        let k = l.key.as_str();
        let placed = str_eq(k, "timeout") || str_eq(k, "command") || str_eq(k, "resume_command")
            || str_eq(k, "resume-command") || str_eq(k, "lock_command") || str_eq(k, "lock-command")
            || str_eq(k, "notification") || str_eq(k, "notify_seconds_before") || str_eq(
            k,
            "notify-seconds-before",
        ) || str_eq(k, "use_loginctl");
        if !placed {
            let key = replace_char(k, '-', '_');
            push_property(out, indent, key.as_str(), l.raw_value.as_str());
            assert(out@ =~= given + others_text(v, i + 1, indent as nat));
        }
    }
}

fn emit_command(
    out: &mut String,
    indent: usize,
    name: &str,
    command: &Option<String>,
    locker: &Option<String>,
)
    ensures
        final(out)@ == old(out)@ + command_text(
            indent as nat,
            name@,
            opt_view(*command),
            opt_view(*locker),
        ),
{
    let through_session = match command {
        Some(c) => str_eq(name, "lock_screen") && contains(c.as_str(), "loginctl lock-session"),
        None => false,
    };
    if through_session {
        match locker {
            Some(l) => {
                push_property(out, indent, "command", l.as_str());
            },
            None => {
                push_spaces(out, indent);
                out.append("# TODO: lock_screen.command missing (was loginctl lock-session)\n");
                assert(out@ =~= old(out)@ + (spaces(indent as nat) + missing_locker()));
            },
        }
    } else {
        push_placed(out, indent, "command", command);
    }
}

fn emit_block(b: &OldBlock, indent: usize) -> (r: String)
    requires
        indent <= 4,
    ensures
        r@ == block_text(b@, indent as nat),
{
    assert(b@.lines.len() == b.lines@.len());
    let name = written_name(b);
    let inner: usize = indent + 2;
    let mut out = String::new();
    push_spaces(&mut out, indent);
    assert(out@ =~= spaces(indent as nat));
    out.append(name.as_str());
    out.append(":\n");
    emit_others(&mut out, &b.lines, inner);
    push_placed(&mut out, inner, "timeout", &last_value(&b.lines, "timeout", "timeout"));
    emit_command(
        &mut out,
        inner,
        name.as_str(),
        &last_value(&b.lines, "command", "command"),
        &last_value(&b.lines, "lock_command", "lock-command"),
    );
    push_placed(
        &mut out,
        inner,
        "resume_command",
        &last_value(&b.lines, "resume_command", "resume-command"),
    );
    push_placed(
        &mut out,
        inner,
        "notification",
        &last_value(&b.lines, "notification", "notification"),
    );
    push_placed(
        &mut out,
        inner,
        "notify_seconds_before",
        &last_value(&b.lines, "notify_seconds_before", "notify-seconds-before"),
    );
    push_spaces(&mut out, indent);
    out.append("end\n");
    out
}

fn emit_blocks(out: &mut String, blocks: &Vec<OldBlock>, indent: usize)
    requires
        indent <= 4,
    ensures
        final(out)@ == old(out)@ + blocks_text(
            block_views(blocks@),
            blocks@.len() as int,
            indent as nat,
        ),
{
    let ghost v = block_views(blocks@);
    let ghost given = out@;
    assert(given + Seq::<char>::empty() =~= given);
    for i in 0..blocks.len()
        invariant
            indent <= 4,
            v == block_views(blocks@),
            out@ == given + blocks_text(v, i as int, indent as nat),
    {
        assert(v[i as int] == blocks@[i as int]@);
        let text = emit_block(&blocks[i], indent);
        out.append(text.as_str());
        assert(out@ =~= given + (blocks_text(v, i as int, indent as nat) + text@));
    }
}

fn emit_source(out: &mut String, head: &str, blocks: &Vec<OldBlock>)
    ensures
        final(out)@ == old(out)@ + source_text(head@, block_views(blocks@)),
{
    let ghost given = out@;
    if blocks.len() > 0 {
        out.append(head);
        emit_blocks(out, blocks, 4);
        out.append("  end\n");
    }
    assert(block_views(blocks@).len() == blocks@.len());
    assert(out@ =~= given + source_text(head@, block_views(blocks@)));
}

fn emit_profile(p: &OldProfile) -> (r: String)
    ensures
        r@ == profile_text(p@),
{
    assert(p@.lines.len() == p.lines@.len() && p@.blocks.len() == p.blocks@.len());
    let mut out = p.name.clone();
    out.append(":\n  mode \"overlay\"\n");
    emit_globals(&mut out, &p.lines);
    emit_blocks(&mut out, &p.blocks, 2);
    out.append("end\n\n");
    out
}

fn emit_profiles(out: &mut String, profiles: &Vec<OldProfile>)
    ensures
        final(out)@ == old(out)@ + profiles_text(
            old_profile_views(profiles@),
            profiles@.len() as int,
        ),
{
    let ghost v = old_profile_views(profiles@);
    let ghost given = out@;
    assert(given + Seq::<char>::empty() =~= given);
    for i in 0..profiles.len()
        invariant
            v == old_profile_views(profiles@),
            out@ == given + profiles_text(v, i as int),
    {
        assert(v[i as int] == profiles@[i as int]@);
        let text = emit_profile(&profiles[i]);
        out.append(text.as_str());
        assert(out@ =~= given + (profiles_text(v, i as int) + text@));
    }
}

fn emit_head(f: &OldFile) -> (r: String)
    ensures
        r@ == head_text(f@),
{
    let ghost v = views(f.meta_lines@);
    let mut out = String::new();
    for i in 0..f.meta_lines.len()
        invariant
            v == views(f.meta_lines@),
            out@ == meta_text(v, i as int),
    {
        assert(v[i as int] == f.meta_lines@[i as int]@);
        out.append(f.meta_lines[i].as_str());
        out.append("\n");
    }
    if f.meta_lines.len() > 0 {
        out.append("\n");
    }
    assert(f@.meta_lines.len() == f.meta_lines@.len());
    out
}

fn emit_body(f: &OldFile) -> (r: String)
    ensures
        r@ == body_text(f@),
{
    let mut out = String::new();
    if old_wants_loginctl(f) && !has_key(&f.stasis_globals, "enable_loginctl") {
        out.append("  enable_loginctl true\n");
    }
    emit_globals(&mut out, &f.stasis_globals);
    emit_blocks(&mut out, &f.blocks, 2);
    emit_source(&mut out, "\n  ac:\n", &f.on_ac);
    emit_source(&mut out, "\n  battery:\n", &f.on_battery);
    out.append("end\n\n");
    emit_profiles(&mut out, &f.profiles);
    assert(f@.stasis_globals.len() == f.stasis_globals@.len());
    assert(f@.blocks.len() == f.blocks@.len());
    assert(f@.profiles.len() == f.profiles@.len());
    assert(out@ =~= body_text(f@));
    out
}

/// Writes a file in the current form.
pub fn emit_new(f: &OldFile) -> (r: String)
    ensures
        r@ == file_text(f@),
{
    let mut out = emit_head(f);
    out.append("default:\n");
    out.append(emit_body(f).as_str());
    out
}

} // verus!
