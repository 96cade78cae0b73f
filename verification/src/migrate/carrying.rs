//! Laws on what is carried over into the current form.

use vstd::prelude::*;

use super::emit::{
    block_name, block_text, blocks_text, body_text, command_text, file_text, globals_text,
    head_text, others_text, placed_line, profile_text, profiles_text, property_line, source_text,
    todays_key, value_of,
};
use super::keys::{
    default_line, indent_of, kept_lines, second_word, sets_dbus, sets_loginctl, with_default_key,
};
use super::legacy::{
    property_of, Ctx, LineModel, OldBlockModel, OldFileModel, OldProfileModel, Reading,
};
use crate::text::chars::is_white;
use crate::text::split::{first_white, first_white_is_first, is_word};
use crate::text::strings::{
    has_part, part_stays, spaces, trimmed, trimmed_start, whole_is_a_part, with_char_replaced,
};

verus! {

// ---------------------------------------------------------------------------------------------
// Reading the earlier form
// ---------------------------------------------------------------------------------------------

/// A line with a key and a value sets that key to that value.
pub proof fn line_sets_its_key(key: Seq<char>, value: Seq<char>)
    requires
        is_word(key),
        value.len() > 0,
        !is_white(value[0]),
        !is_white(value.last()),
    ensures
        property_of(key + seq![' '] + value) matches Some(l) && l.raw_value == value && l.key.len()
            == key.len() && forall|i: int|
            0 <= i < key.len() ==> #[trigger] l.key[i] == if key[i] == '-' {
                '_'
            } else {
                key[i]
            },
{
    let line = key + seq![' '] + value;
    let n = key.len() as int;
    first_white_is_first(line);
    let w = first_white(line) as int;
    assert(line[n] == ' ');
    if w < n {
        assert(line[w] == key[w]);
        assert(!is_white(key[w]));
    }
    assert(w == n);
    assert(line.take(n) =~= key);
    assert(line.skip(n + 1) =~= value);
    assert(!is_white(key[0]) && !is_white(key[n - 1]));
    assert(trimmed(key) == key);
    assert(trimmed(value) == value);
}

/// Blocks under `on_ac` are those of the plan for mains, blocks under `on_battery` those of the plan
/// for the battery, and the others those of the plan itself. What a block sets is put into it.
pub proof fn blocks_go_to_their_plans(r: Reading, name: Seq<char>, line: LineModel)
    requires
        r.open.len() > 0,
        r.open.last() == Ctx::Stasis,
        name != "on_ac"@,
        name != "on_battery"@,
    ensures
        ({
            let ac = r.block_begins("on_ac"@).block_begins(name);
            let battery = r.block_begins("on_battery"@).block_begins(name);
            let own = r.block_begins(name);
            let made = OldBlockModel { name, lines: Seq::empty() };
            let filled = OldBlockModel { name, lines: seq![line] };
            &&& ac.file == (OldFileModel { on_ac: r.file.on_ac.push(made), ..r.file })
            &&& ac.property(line).file == (OldFileModel {
                on_ac: r.file.on_ac.push(filled),
                ..r.file
            })
            &&& battery.file == (OldFileModel {
                on_battery: r.file.on_battery.push(made),
                ..r.file
            })
            &&& battery.property(line).file == (OldFileModel {
                on_battery: r.file.on_battery.push(filled),
                ..r.file
            })
            &&& own.file == (OldFileModel { blocks: r.file.blocks.push(made), ..r.file })
            &&& own.property(line).file == (OldFileModel {
                blocks: r.file.blocks.push(filled),
                ..r.file
            })
            &&& r.property(line).file == (OldFileModel {
                stasis_globals: r.file.stasis_globals.push(line),
                ..r.file
            })
        }),
{
    reveal_strlit("on_ac");
    reveal_strlit("on_battery");
    assert("on_ac"@.len() != "on_battery"@.len());
    let ac = r.block_begins("on_ac"@).block_begins(name);
    let battery = r.block_begins("on_battery"@).block_begins(name);
    let own = r.block_begins(name);
    let filled = OldBlockModel { name, lines: seq![line] };
    assert(Seq::<LineModel>::empty().push(line) =~= seq![line]);
    assert(ac.property(line).file.on_ac =~= r.file.on_ac.push(filled));
    assert(battery.property(line).file.on_battery =~= r.file.on_battery.push(filled));
    assert(own.property(line).file.blocks =~= r.file.blocks.push(filled));
}

/// A block under `profiles` is a profile, a block in it one of its steps, and what it sets is put
/// into it.
pub proof fn profiles_get_their_own(
    r: Reading,
    name: Seq<char>,
    step: Seq<char>,
    line: LineModel,
)
    requires
        r.open.len() > 0,
        r.open.last() == Ctx::Profiles,
    ensures
        ({
            let p = r.block_begins(name);
            let made = OldProfileModel { name, lines: Seq::empty(), blocks: Seq::empty() };
            &&& p.file.profiles == r.file.profiles.push(made)
            &&& p.property(line).file.profiles == r.file.profiles.push(
                OldProfileModel { lines: seq![line], ..made },
            )
            &&& p.block_begins(step).property(line).file.profiles == r.file.profiles.push(
                OldProfileModel {
                    blocks: seq![OldBlockModel { name: step, lines: seq![line] }],
                    ..made
                },
            )
            &&& p.block_begins(step).file.blocks == r.file.blocks
        }),
{
    let p = r.block_begins(name);
    let made = OldProfileModel { name, lines: Seq::empty(), blocks: Seq::empty() };
    assert(Seq::<LineModel>::empty().push(line) =~= seq![line]);
    assert(p.property(line).file.profiles =~= r.file.profiles.push(
        OldProfileModel { lines: seq![line], ..made },
    ));
    let b = p.block_begins(step);
    assert(b.file.profiles.last().blocks =~= seq![
        OldBlockModel { name: step, lines: Seq::empty() },
    ]);
    let c = b.property(line);
    assert(c.file.profiles.last().blocks =~= seq![OldBlockModel { name: step, lines: seq![line] }]);
    assert(c.file.profiles =~= r.file.profiles.push(
        OldProfileModel {
            blocks: seq![OldBlockModel { name: step, lines: seq![line] }],
            ..made
        },
    ));
}

// ---------------------------------------------------------------------------------------------
// Writing the current form
// ---------------------------------------------------------------------------------------------

/// Of several lines that set a key, in either of its spellings, the last one counts; a key that no
/// line sets has no value.
pub proof fn last_line_counts(
    lines: Seq<LineModel>,
    n: int,
    key: Seq<char>,
    dashed: Seq<char>,
    j: int,
)
    requires
        0 <= n <= lines.len(),
    ensures
        0 <= j < n && (lines[j].key == key || lines[j].key == dashed) && (forall|k: int|
            j < k < n ==> (#[trigger] lines[k]).key != key && lines[k].key != dashed) ==> value_of(
            lines,
            n,
            key,
            dashed,
        ) == Some(lines[j].raw_value),
        (forall|k: int| 0 <= k < n ==> (#[trigger] lines[k]).key != key && lines[k].key != dashed)
            ==> value_of(lines, n, key, dashed) is None,
    decreases n,
{
    if n > 0 {
        last_line_counts(lines, n - 1, key, dashed, j);
    }
}

proof fn sum_has_both(a: Seq<char>, b: Seq<char>, p: Seq<char>)
    ensures
        has_part(a, p) ==> has_part(a + b, p),
        has_part(b, p) ==> has_part(a + b, p),
{
    if has_part(a, p) || has_part(b, p) {
        part_stays(a, b, p);
    }
}

/// A block is written with what it sets: its time, its command, its resume command, its notice and
/// when that comes. A lock step that asked the session manager to lock is written with its locker.
pub proof fn block_keeps_what_it_sets(b: OldBlockModel, indent: nat, v: Seq<char>)
    ensures
        ({
            let n = b.lines.len() as int;
            let t = block_text(b, indent);
            let inner = indent + 2;
            let by_session = block_name(b) == "lock_screen"@ && (value_of(
                b.lines,
                n,
                "command"@,
                "command"@,
            ) matches Some(c) && has_part(c, "loginctl lock-session"@));
            &&& value_of(b.lines, n, "timeout"@, "timeout"@) == Some(v) ==> has_part(
                t,
                property_line(inner, "timeout"@, v),
            )
            &&& !by_session && value_of(b.lines, n, "command"@, "command"@) == Some(v) ==> has_part(
                t,
                property_line(inner, "command"@, v),
            )
            &&& by_session && value_of(b.lines, n, "lock_command"@, "lock-command"@) == Some(v)
                ==> has_part(t, property_line(inner, "command"@, v))
            &&& value_of(b.lines, n, "resume_command"@, "resume-command"@) == Some(v) ==> has_part(
                t,
                property_line(inner, "resume_command"@, v),
            )
            &&& value_of(b.lines, n, "notification"@, "notification"@) == Some(v) ==> has_part(
                t,
                property_line(inner, "notification"@, v),
            )
            &&& value_of(b.lines, n, "notify_seconds_before"@, "notify-seconds-before"@) == Some(v)
                ==> has_part(t, property_line(inner, "notify_seconds_before"@, v))
        }),
{
    let n = b.lines.len() as int;
    let inner = indent + 2;
    let start = spaces(indent) + block_name(b) + ":\n"@ + others_text(b.lines, n, inner);
    let p1 = placed_line(inner, "timeout"@, value_of(b.lines, n, "timeout"@, "timeout"@));
    let p2 = command_text(
        inner,
        block_name(b),
        value_of(b.lines, n, "command"@, "command"@),
        value_of(b.lines, n, "lock_command"@, "lock-command"@),
    );
    let p3 = placed_line(
        inner,
        "resume_command"@,
        value_of(b.lines, n, "resume_command"@, "resume-command"@),
    );
    let p4 = placed_line(
        inner,
        "notification"@,
        value_of(b.lines, n, "notification"@, "notification"@),
    );
    let p5 = placed_line(
        inner,
        "notify_seconds_before"@,
        value_of(b.lines, n, "notify_seconds_before"@, "notify-seconds-before"@),
    );
    assert(block_text(b, indent) == start + p1 + p2 + p3 + p4 + p5 + spaces(indent) + "end\n"@);
    parts_are_kept(start, p1, p2, p3, p4, p5, spaces(indent), "end\n"@, p1);
    parts_are_kept(start, p1, p2, p3, p4, p5, spaces(indent), "end\n"@, p2);
    parts_are_kept(start, p1, p2, p3, p4, p5, spaces(indent), "end\n"@, p3);
    parts_are_kept(start, p1, p2, p3, p4, p5, spaces(indent), "end\n"@, p4);
    parts_are_kept(start, p1, p2, p3, p4, p5, spaces(indent), "end\n"@, p5);
}

proof fn parts_are_kept(
    s: Seq<char>,
    a: Seq<char>,
    b: Seq<char>,
    c: Seq<char>,
    d: Seq<char>,
    e: Seq<char>,
    f: Seq<char>,
    g: Seq<char>,
    p: Seq<char>,
)
    requires
        p == a || p == b || p == c || p == d || p == e,
    ensures
        has_part(s + a + b + c + d + e + f + g, p),
{
    whole_is_a_part(p);
    sum_has_both(s, a, p);
    sum_has_both(s + a, b, p);
    sum_has_both(s + a + b, c, p);
    sum_has_both(s + a + b + c, d, p);
    sum_has_both(s + a + b + c + d, e, p);
    sum_has_both(s + a + b + c + d + e, f, p);
    sum_has_both(s + a + b + c + d + e + f, g, p);
}

proof fn blocks_are_written(blocks: Seq<OldBlockModel>, n: int, indent: nat, i: int)
    requires
        0 <= i < n <= blocks.len(),
    ensures
        has_part(blocks_text(blocks, n, indent), block_text(blocks[i], indent)),
    decreases n,
{
    let p = block_text(blocks[i], indent);
    if i == n - 1 {
        whole_is_a_part(p);
    } else {
        blocks_are_written(blocks, n - 1, indent, i);
    }
    part_stays(blocks_text(blocks, n - 1, indent), block_text(blocks[n - 1], indent), p);
}

/// The settings that are still known are written under the names of today.
pub proof fn settings_are_written(lines: Seq<LineModel>, n: int, i: int)
    requires
        0 <= i < n <= lines.len(),
        lines[i].key != "respect_idle_inhibitors"@,
        lines[i].key != "use_loginctl"@,
    ensures
        has_part(
            globals_text(lines, n),
            property_line(
                2,
                if lines[i].key == "notify_before_command"@ {
                    "notify_before_action"@
                } else if lines[i].key == "listen_browser_dbus_inhibit"@ {
                    "enable_dbus_inhibit"@
                } else {
                    with_char_replaced(lines[i].key, '-', '_')
                },
                lines[i].raw_value,
            ),
        ),
    decreases n,
{
    reveal_strlit("notify_before_command");
    reveal_strlit("listen_browser_dbus_inhibit");
    assert("notify_before_command"@.len() != "listen_browser_dbus_inhibit"@.len());
    let own = property_line(2, todays_key(lines[i].key), lines[i].raw_value);
    let last = lines[n - 1];
    let line = property_line(2, todays_key(last.key), last.raw_value);
    if i == n - 1 {
        whole_is_a_part(own);
        part_stays(globals_text(lines, n - 1), line, own);
    } else {
        settings_are_written(lines, n - 1, i);
        part_stays(globals_text(lines, n - 1), line, own);
    }
}

proof fn source_begins_with_its_first_block(head: Seq<char>, blocks: Seq<OldBlockModel>)
    requires
        blocks.len() > 0,
    ensures
        has_part(source_text(head, blocks), head + block_text(blocks[0], 4)),
{
    let n = blocks.len() as int;
    let b = block_text(blocks[0], 4);
    let all = blocks_text(blocks, n, 4);
    first_block_comes_first(blocks, n, 4);
    let s = source_text(head, blocks);
    let p = head + b;
    assert(s.subrange(0, p.len() as int) =~= p) by {
        assert(all.take(b.len() as int) =~= b);
        assert forall|i: int| 0 <= i < p.len() implies s[i] == p[i] by {
            if i >= head.len() {
                assert(all[i - head.len()] == all.take(b.len() as int)[i - head.len()]);
            }
        }
    }
    assert(crate::text::strings::occurs_at(s, p, 0));
}

proof fn first_block_comes_first(blocks: Seq<OldBlockModel>, n: int, indent: nat)
    requires
        0 < n <= blocks.len(),
    ensures
        ({
            let b = block_text(blocks[0], indent);
            let all = blocks_text(blocks, n, indent);
            b.len() <= all.len() && all.take(b.len() as int) == b
        }),
    decreases n,
{
    let b = block_text(blocks[0], indent);
    let all = blocks_text(blocks, n, indent);
    if n == 1 {
        assert(blocks_text(blocks, 0, indent) =~= Seq::<char>::empty());
        assert(all =~= b);
        assert(all.take(b.len() as int) =~= b);
    } else {
        first_block_comes_first(blocks, n - 1, indent);
        let before = blocks_text(blocks, n - 1, indent);
        assert(all.take(b.len() as int) =~= before.take(b.len() as int));
    }
}

/// Every step of the plan is written in the default block, and so is every step of the plans for
/// the power sources: those for mains begin under `ac`, those for the battery under `battery`.
/// Every profile is written behind it.
pub proof fn every_step_is_carried_over(f: OldFileModel, i: int)
    ensures
        0 <= i < f.blocks.len() ==> has_part(file_text(f), block_text(f.blocks[i], 2)),
        0 <= i < f.on_ac.len() ==> has_part(file_text(f), block_text(f.on_ac[i], 4)),
        0 <= i < f.on_battery.len() ==> has_part(file_text(f), block_text(f.on_battery[i], 4)),
        f.on_ac.len() > 0 ==> has_part(
            file_text(f),
            "\n  ac:\n"@ + block_text(f.on_ac[0], 4),
        ),
        f.on_battery.len() > 0 ==> has_part(
            file_text(f),
            "\n  battery:\n"@ + block_text(f.on_battery[0], 4),
        ),
        0 <= i < f.profiles.len() ==> has_part(file_text(f), profile_text(f.profiles[i])),
        has_part(
            file_text(f),
            globals_text(f.stasis_globals, f.stasis_globals.len() as int),
        ),
{
    let g = globals_text(f.stasis_globals, f.stasis_globals.len() as int);
    if 0 <= i < f.blocks.len() {
        blocks_are_written(f.blocks, f.blocks.len() as int, 2, i);
        part_of_the_file(f, block_text(f.blocks[i], 2));
    }
    if 0 <= i < f.on_ac.len() {
        blocks_are_written(f.on_ac, f.on_ac.len() as int, 4, i);
        let t = blocks_text(f.on_ac, f.on_ac.len() as int, 4);
        sum_has_both("\n  ac:\n"@, t, block_text(f.on_ac[i], 4));
        sum_has_both("\n  ac:\n"@ + t, "  end\n"@, block_text(f.on_ac[i], 4));
        part_of_the_file(f, block_text(f.on_ac[i], 4));
    }
    if 0 <= i < f.on_battery.len() {
        blocks_are_written(f.on_battery, f.on_battery.len() as int, 4, i);
        let t = blocks_text(f.on_battery, f.on_battery.len() as int, 4);
        sum_has_both("\n  battery:\n"@, t, block_text(f.on_battery[i], 4));
        sum_has_both("\n  battery:\n"@ + t, "  end\n"@, block_text(f.on_battery[i], 4));
        part_of_the_file(f, block_text(f.on_battery[i], 4));
    }
    if f.on_ac.len() > 0 {
        source_begins_with_its_first_block("\n  ac:\n"@, f.on_ac);
        part_of_the_file(f, "\n  ac:\n"@ + block_text(f.on_ac[0], 4));
    }
    if f.on_battery.len() > 0 {
        source_begins_with_its_first_block("\n  battery:\n"@, f.on_battery);
        part_of_the_file(f, "\n  battery:\n"@ + block_text(f.on_battery[0], 4));
    }
    if 0 <= i < f.profiles.len() {
        profiles_are_written(f.profiles, f.profiles.len() as int, i);
        part_of_the_file(f, profile_text(f.profiles[i]));
    }
    whole_is_a_part(g);
    part_of_the_file(f, g);
}

proof fn profiles_are_written(profiles: Seq<OldProfileModel>, n: int, i: int)
    requires
        0 <= i < n <= profiles.len(),
    ensures
        has_part(profiles_text(profiles, n), profile_text(profiles[i])),
    decreases n,
{
    let p = profile_text(profiles[i]);
    if i == n - 1 {
        whole_is_a_part(p);
    } else {
        profiles_are_written(profiles, n - 1, i);
    }
    part_stays(profiles_text(profiles, n - 1), profile_text(profiles[n - 1]), p);
}

proof fn part_of_the_file(f: OldFileModel, x: Seq<char>)
    requires
        ({
            ||| has_part(globals_text(f.stasis_globals, f.stasis_globals.len() as int), x)
            ||| has_part(blocks_text(f.blocks, f.blocks.len() as int, 2), x)
            ||| has_part(source_text("\n  ac:\n"@, f.on_ac), x)
            ||| has_part(source_text("\n  battery:\n"@, f.on_battery), x)
            ||| has_part(profiles_text(f.profiles, f.profiles.len() as int), x)
        }),
    ensures
        has_part(file_text(f), x),
{
    let e = if super::emit::file_locks_session(f) && !super::emit::sets_key(
        f.stasis_globals,
        "enable_loginctl"@,
    ) {
        "  enable_loginctl true\n"@
    } else {
        Seq::empty()
    };
    let g = globals_text(f.stasis_globals, f.stasis_globals.len() as int);
    let b = blocks_text(f.blocks, f.blocks.len() as int, 2);
    let a = source_text("\n  ac:\n"@, f.on_ac);
    let s = source_text("\n  battery:\n"@, f.on_battery);
    let p = profiles_text(f.profiles, f.profiles.len() as int);
    sum_has_both(e, g, x);
    sum_has_both(e + g, b, x);
    sum_has_both(e + g + b, a, x);
    sum_has_both(e + g + b + a, s, x);
    sum_has_both(e + g + b + a + s, "end\n\n"@, x);
    sum_has_both(e + g + b + a + s + "end\n\n"@, p, x);
    assert(body_text(f) == e + g + b + a + s + "end\n\n"@ + p);
    sum_has_both(head_text(f) + "default:\n"@, body_text(f), x);
}

/// A profile is written with its settings and its steps.
pub proof fn profile_keeps_its_own(p: OldProfileModel, i: int)
    ensures
        has_part(profile_text(p), globals_text(p.lines, p.lines.len() as int)),
        0 <= i < p.blocks.len() ==> has_part(profile_text(p), block_text(p.blocks[i], 2)),
{
    let h = p.name + ":\n  mode \"overlay\"\n"@;
    let g = globals_text(p.lines, p.lines.len() as int);
    let b = blocks_text(p.blocks, p.blocks.len() as int, 2);
    whole_is_a_part(g);
    sum_has_both(h, g, g);
    sum_has_both(h + g, b, g);
    sum_has_both(h + g + b, "end\n\n"@, g);
    if 0 <= i < p.blocks.len() {
        let x = block_text(p.blocks[i], 2);
        blocks_are_written(p.blocks, p.blocks.len() as int, 2, i);
        sum_has_both(h + g, b, x);
        sum_has_both(h + g + b, "end\n\n"@, x);
    }
}

// ---------------------------------------------------------------------------------------------
// Keys that moved
// ---------------------------------------------------------------------------------------------

/// A line whose key is the same today is kept as it is, and one whose key has another name today is
/// kept under that name with its value.
pub proof fn other_lines_are_kept(all: Seq<Seq<char>>, n: int, i: int)
    requires
        0 <= i < n <= all.len(),
    ensures
        !sets_dbus(all[i]) && !sets_loginctl(all[i]) ==> kept_lines(all, n).contains(all[i]),
        sets_dbus(all[i]) && second_word(all[i]) is Some ==> kept_lines(all, n).contains(
            indent_of(all[i]) + "enable_dbus_inhibit "@ + second_word(all[i])->0,
        ),
    decreases n,
{
    let kept = kept_lines(all, n);
    let before = kept_lines(all, n - 1);
    if i == n - 1 {
        if !(sets_loginctl(all[i]) && !sets_dbus(all[i])) {
            assert(kept[kept.len() - 1] == kept.last());
            assert(kept.contains(kept.last()));
        }
    } else {
        other_lines_are_kept(all, n - 1, i);
        assert forall|x: Seq<char>| before.contains(x) implies kept.contains(x) by {
            let k = choose|k: int| 0 <= k < before.len() && before[k] == x;
            assert(kept[k] == x);
        }
    }
}

/// The key of the whole configuration goes right behind the first line of the default block.
pub proof fn key_goes_into_the_default_block(all: Seq<Seq<char>>, line: Seq<char>, i: int)
    requires
        0 <= i < all.len(),
        trimmed_start(all[i]) == "default:"@,
        forall|k: int| 0 <= k < i ==> trimmed_start(#[trigger] all[k]) != "default:"@,
    ensures
        with_default_key(all, line) == all.take(i + 1) + seq![line] + all.skip(i + 1),
{
    default_is_found(all, i);
    assert(all.insert(i + 1, line) =~= all.take(i + 1) + seq![line] + all.skip(i + 1));
}

proof fn default_is_found(all: Seq<Seq<char>>, i: int)
    requires
        0 <= i < all.len(),
        trimmed_start(all[i]) == "default:"@,
        forall|k: int| 0 <= k < i ==> trimmed_start(#[trigger] all[k]) != "default:"@,
    ensures
        default_line(all) == i,
    decreases i,
{
    if i > 0 {
        let rest = all.skip(1);
        assert forall|k: int| 0 <= k < i - 1 implies trimmed_start(#[trigger] rest[k])
            != "default:"@ by {
            assert(rest[k] == all[k + 1]);
        }
        assert(trimmed_start(all[0]) != "default:"@);
        default_is_found(rest, i - 1);
    }
}

} // verus!
