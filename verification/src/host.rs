//! What the machine is and how it is powered, from what the kernel's files say.

use vstd::prelude::*;

use crate::text::strings::{has_prefix, opt_view, push_char, starts_with, str_eq, trim, trimmed};

verus! {

#[derive(Debug, Clone, Copy, PartialEq, Eq, Structural)]
pub enum ChassisKind {
    Laptop,
    Desktop,
}

/// The text in which each `'` closes the quotes, stands in quotes of its own, and opens them
/// again.
pub open spec fn escaped(s: Seq<char>) -> Seq<char>
    decreases s.len(),
{
    if s.len() == 0 {
        Seq::empty()
    } else if s.last() == '\'' {
        escaped(s.drop_last()) + "'\"'\"'"@
    } else {
        escaped(s.drop_last()).push(s.last())
    }
}

/// Makes a text safe to stand between single quotes in a shell's command.
pub fn escape_single_quotes(s: &str) -> (r: String)
    ensures
        r@ == escaped(s@),
{
    let mut out = String::new();
    let n = s.unicode_len();
    for i in 0..n
        invariant
            n == s@.len(),
            out@ == escaped(s@.take(i as int)),
    {
        assert(s@.take(i + 1).drop_last() =~= s@.take(i as int));
        let c = s.get_char(i);
        if c == '\'' {
            out.append("'\"'\"'");
        } else {
            push_char(&mut out, c);
        }
    }
    assert(s@.take(n as int) =~= s@);
    out
}

/// The word that a shell reads from quoted text, where `quote` is the quote that is open. Single
/// quotes hold any other character; of double quotes this reads only those that hold single ones.
pub open spec fn shell_word(s: Seq<char>, quote: Option<char>) -> Option<Seq<char>>
    decreases s.len(),
{
    if s.len() == 0 {
        if quote is None {
            Some(Seq::empty())
        } else {
            None
        }
    } else {
        let c = s[0];
        let rest = s.skip(1);
        match quote {
            None => if c == '\'' || c == '"' {
                shell_word(rest, Some(c))
            } else {
                None
            },
            Some(q) => if c == q {
                shell_word(rest, None)
            } else if q == '"' && c != '\'' {
                None
            } else {
                match shell_word(rest, quote) {
                    Some(w) => Some(seq![c] + w),
                    None => None,
                }
            },
        }
    }
}

proof fn escaped_from_the_front(c: char, s: Seq<char>)
    ensures
        escaped(seq![c] + s) == (if c == '\'' {
            "'\"'\"'"@
        } else {
            seq![c]
        }) + escaped(s),
    decreases s.len(),
{
    let all = seq![c] + s;
    if s.len() == 0 {
        assert(all.drop_last() =~= Seq::empty());
        assert(all.last() == c);
        assert(escaped(all.drop_last()) =~= Seq::empty());
        assert(escaped(all) =~= (if c == '\'' {
            "'\"'\"'"@
        } else {
            seq![c]
        }) + escaped(s));
    } else {
        assert(all.drop_last() =~= seq![c] + s.drop_last());
        assert(all.last() == s.last());
        escaped_from_the_front(c, s.drop_last());
        assert(escaped(all) =~= (if c == '\'' {
            "'\"'\"'"@
        } else {
            seq![c]
        }) + escaped(s));
    }
}

proof fn escaped_ends_its_quotes(s: Seq<char>)
    ensures
        shell_word(escaped(s) + seq!['\''], Some('\'')) == Some(s),
    decreases s.len(),
{
    let text = escaped(s) + seq!['\''];
    reveal_with_fuel(shell_word, 6);
    if s.len() == 0 {
        assert(text =~= seq!['\'']);
        assert(text.skip(1) =~= Seq::empty());
        assert(s =~= Seq::empty());
    } else {
        let c = s[0];
        let rest = s.skip(1);
        let tail = escaped(rest) + seq!['\''];
        assert(s =~= seq![c] + rest);
        escaped_from_the_front(c, rest);
        escaped_ends_its_quotes(rest);
        if c == '\'' {
            reveal_strlit("'\"'\"'");
            assert(text.skip(1).skip(1).skip(1).skip(1).skip(1) =~= tail);
            assert(text[0] == '\'' && text.skip(1)[0] == '"' && text.skip(1).skip(1)[0] == '\''
                && text.skip(1).skip(1).skip(1)[0] == '"' && text.skip(1).skip(1).skip(1).skip(
                1,
            )[0] == '\'');
        } else {
            assert(text.skip(1) =~= tail);
            assert(text[0] == c);
        }
    }
}

/// A shell reads a text that is escaped and put between single quotes as the text itself.
pub proof fn quoted_text_reads_back(s: Seq<char>)
    ensures
        shell_word(seq!['\''] + escaped(s) + seq!['\''], None) == Some(s),
{
    let text = seq!['\''] + escaped(s) + seq!['\''];
    escaped_ends_its_quotes(s);
    assert(text.skip(1) =~= escaped(s) + seq!['\'']);
}

/// The code of a chassis that is carried about: portable, laptop, notebook, convertible, tablet.
pub open spec fn is_portable_code(code: Seq<char>) -> bool {
    ||| code == "8"@
    ||| code == "9"@
    ||| code == "10"@
    ||| code == "14"@
    ||| code == "30"@
    ||| code == "31"@
    ||| code == "32"@
}

/// The kind of chassis, by the contents of the kernel's file on it. A machine without the file is
/// a desktop.
pub open spec fn chassis(data: Option<Seq<char>>) -> ChassisKind {
    match data {
        Some(code) => if is_portable_code(trimmed(code)) {
            ChassisKind::Laptop
        } else {
            ChassisKind::Desktop
        },
        None => ChassisKind::Desktop,
    }
}

/// The kind of chassis, by the contents of the kernel's file on it.
pub fn detect_chassis(data: &Option<String>) -> (r: ChassisKind)
    ensures
        r == chassis(opt_view(*data)),
{
    match data {
        None => ChassisKind::Desktop,
        Some(text) => {
            let code = trim(text.as_str());
            let c = code.as_str();
            if str_eq(c, "8") || str_eq(c, "9") || str_eq(c, "10") || str_eq(c, "14") || str_eq(
                c,
                "30",
            ) || str_eq(c, "31") || str_eq(c, "32") {
                ChassisKind::Laptop
            } else {
                ChassisKind::Desktop
            }
        },
    }
}

/// The machine is a laptop, by the contents of the kernel's file on its chassis.
pub fn is_laptop(data: &Option<String>) -> (r: bool)
    ensures
        r == (chassis(opt_view(*data)) == ChassisKind::Laptop),
{
    match detect_chassis(data) {
        ChassisKind::Laptop => true,
        ChassisKind::Desktop => false,
    }
}

/// A power supply: the name of its directory, and what its files hold, as far as they can be
/// read.
#[derive(Debug)]
pub struct PowerSupply {
    pub name: Option<String>,
    pub kind: Option<String>,
    pub online: Option<String>,
}

/// What stands for a [`PowerSupply`] in contracts.
#[verifier::ext_equal]
pub struct SupplyModel {
    pub name: Option<Seq<char>>,
    pub kind: Option<Seq<char>>,
    pub online: Option<Seq<char>>,
}

impl View for PowerSupply {
    type V = SupplyModel;

    open spec fn view(&self) -> SupplyModel {
        SupplyModel {
            name: opt_view(self.name),
            kind: opt_view(self.kind),
            online: opt_view(self.online),
        }
    }
}

/// The name under which a mains adapter was known before supplies had a type.
pub open spec fn is_adapter_name(name: Seq<char>) -> bool {
    ||| has_prefix(name, "AC"@)
    ||| has_prefix(name, "AC0"@)
    ||| has_prefix(name, "ADP"@)
    ||| has_prefix(name, "ADP0"@)
    ||| has_prefix(name, "ACAD"@)
}

impl SupplyModel {
    pub open spec fn is_online(self) -> bool {
        self.online matches Some(t) && trimmed(t) == "1"@
    }

    pub open spec fn is_mains(self) -> bool {
        ||| self.kind matches Some(t) && trimmed(t) == "Mains"@
        ||| self.name matches Some(n) && is_adapter_name(n)
    }

    /// The supply is a mains adapter that gives power.
    pub open spec fn feeds(self) -> bool {
        self.is_mains() && self.is_online()
    }
}

/// What stands for a list of supplies in contracts.
pub open spec fn supply_views(v: Seq<PowerSupply>) -> Seq<SupplyModel> {
    v.map_values(|p: PowerSupply| p@)
}

/// The machine runs on mains power: one of its supplies is a mains adapter that gives power.
pub open spec fn on_mains(supplies: Seq<SupplyModel>) -> bool {
    exists|i: int| 0 <= i < supplies.len() && (#[trigger] supplies[i]).feeds()
}

fn holds(text: &Option<String>, what: &str) -> (r: bool)
    ensures
        r == (opt_view(*text) matches Some(t) && trimmed(t) == what@),
{
    match text {
        None => false,
        Some(t) => {
            let t = trim(t.as_str());
            str_eq(t.as_str(), what)
        },
    }
}

fn adapter_name(name: &str) -> (r: bool)
    ensures
        r == is_adapter_name(name@),
{
    starts_with(name, "AC") || starts_with(name, "AC0") || starts_with(name, "ADP") || starts_with(
        name,
        "ADP0",
    ) || starts_with(name, "ACAD")
}

/// The machine runs on mains power.
pub fn is_on_ac_power(supplies: &Vec<PowerSupply>) -> (r: bool)
    ensures
        r == on_mains(supply_views(supplies@)),
{
    let ghost all = supply_views(supplies@);
    for i in 0..supplies.len()
        invariant
            all == supply_views(supplies@),
            forall|j: int| 0 <= j < i ==> !(#[trigger] all[j]).feeds(),
    {
        let p = &supplies[i];
        assert(all[i as int] == p@);
        let mains = holds(&p.kind, "Mains") || match &p.name {
            Some(n) => adapter_name(n.as_str()),
            None => false,
        };
        if mains && holds(&p.online, "1") {
            return true;
        }
    }
    false
}

} // verus!
