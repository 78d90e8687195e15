//! Small string utilities shared by the registry and the command handlers:
//! equality of string slices, space-joining of argument lists, and the
//! label/value lines exchanged with an interactive picker.

use vstd::prelude::*;

verus! {

/// Whether two string slices hold the same characters.
pub fn str_eq(a: &str, b: &str) -> (r: bool)
    ensures
        r == (a@ == b@),
{
    let sa: String = a.to_owned();
    let sb: String = b.to_owned();
    sa == sb
}

/// The parts joined in order, each pair separated by a single space.
pub open spec fn space_join(parts: Seq<Seq<char>>) -> Seq<char>
    decreases parts.len(),
{
    if parts.len() == 0 {
        Seq::empty()
    } else if parts.len() == 1 {
        parts[0]
    } else {
        space_join(parts.drop_last()) + seq![' '] + parts.last()
    }
}

/// Joins the parts with single spaces, as the command handlers do when they
/// assemble an alias name or a command template from argument words.
pub fn join_with_spaces(parts: &Vec<String>) -> (r: String)
    ensures
        r@ == space_join(parts.deep_view()),
{
    let mut r = String::new();
    let mut i: usize = 0;
    while i < parts.len()
        invariant
            i <= parts.len(),
            r@ == space_join(parts.deep_view().take(i as int)),
        decreases parts.len() - i,
    {
        if i > 0 {
            r.append(" ");
        }
        r.append(parts[i].as_str());
        proof {
            let ps = parts.deep_view();
            assert(ps.take(i + 1).drop_last() =~= ps.take(i as int));
            assert(ps.take(i + 1).last() == ps[i as int]);
            if i > 0 {
                assert(" "@ =~= seq![' ']) by {
                    reveal_strlit(" ");
                }
            }
        }
        i += 1;
    }
    proof {
        assert(parts.deep_view().take(parts.len() as int) =~= parts.deep_view());
    }
    r
}

/// The line handed to the interactive picker for one registry entry: label,
/// a tab, value.
pub open spec fn entry_line(alias: Seq<char>, command: Seq<char>) -> Seq<char> {
    alias + seq!['\t'] + command
}

/// Builds the picker's input lines, one `label<TAB>value` line per entry, in
/// the entries' order.
pub fn browse_entries(entries: &Vec<(String, String)>) -> (r: Vec<String>)
    ensures
        r.deep_view().len() == entries.deep_view().len(),
        forall|i: int|
            0 <= i < entries.deep_view().len() ==> r.deep_view()[i] == entry_line(
                entries.deep_view()[i].0,
                entries.deep_view()[i].1,
            ),
{
    let mut r: Vec<String> = Vec::new();
    let mut i: usize = 0;
    while i < entries.len()
        invariant
            i <= entries.len(),
            r.deep_view().len() == i,
            forall|j: int|
                0 <= j < i ==> r.deep_view()[j] == entry_line(
                    entries.deep_view()[j].0,
                    entries.deep_view()[j].1,
                ),
        decreases entries.len() - i,
    {
        let mut line = entries[i].0.clone();
        line.append("\t");
        line.append(entries[i].1.as_str());
        proof {
            assert("\t"@ =~= seq!['\t']) by {
                reveal_strlit("\t");
            }
            assert(line@ == entry_line(entries.deep_view()[i as int].0, entries.deep_view()[
                i as int
            ].1));
        }
        let ghost pre = r.deep_view();
        let ghost prev = r@;
        let ghost lv = line@;
        r.push(line);
        proof {
            assert forall|j: int|
                0 <= j < i + 1 implies r.deep_view()[j] == entry_line(
                entries.deep_view()[j].0,
                entries.deep_view()[j].1,
            ) by {
                if j < i {
                    assert(r@[j] == prev[j]);
                    assert(r.deep_view()[j] == pre[j]);
                } else {
                    assert(r.deep_view()[j] == lv);
                }
            }
        }
        i += 1;
    }
    r
}

/// The position of the leftmost tab in `s`, if any.
pub open spec fn find_tab(s: Seq<char>) -> Option<int>
    decreases s.len(),
{
    if s.len() == 0 {
        None
    } else if s[0] == '\t' {
        Some(0)
    } else {
        match find_tab(s.drop_first()) {
            Some(i) => Some(i + 1),
            None => None,
        }
    }
}

/// The label part of a picker line: everything before the first tab, or the
/// whole line when it holds none.
pub open spec fn selection_label(s: Seq<char>) -> Seq<char> {
    match find_tab(s) {
        Some(i) => s.take(i),
        None => s,
    }
}

/// The leftmost tab position is what `find_tab` returns; a tab-free text has
/// none.
proof fn lemma_find_tab_least(s: Seq<char>, i: int)
    requires
        0 <= i <= s.len(),
        i < s.len() ==> s[i] == '\t',
        forall|j: int| 0 <= j < i ==> s[j] != '\t',
    ensures
        i < s.len() ==> find_tab(s) == Some(i),
        i == s.len() ==> find_tab(s) is None,
    decreases s.len(),
{
    if s.len() == 0 {
    } else if i == 0 {
    } else {
        assert(s[0] != '\t');
        let s2 = s.drop_first();
        assert forall|j: int| 0 <= j < i - 1 implies s2[j] != '\t' by {
            assert(s2[j] == s[j + 1]);
        }
        if i < s.len() {
            assert(s2[i - 1] == s[i]);
        }
        lemma_find_tab_least(s2, i - 1);
    }
}

/// The label of a picker line: its text up to the first tab, the whole line
/// when it holds none. This is how a picked line is turned back into the
/// chosen alias.
pub fn selected_alias(line: &str) -> (r: String)
    ensures
        r@ == selection_label(line@),
{
    let n = line.unicode_len();
    let mut i: usize = 0;
    while i < n
        invariant
            n == line@.len(),
            i <= n,
            forall|j: int| 0 <= j < i ==> line@[j] != '\t',
        decreases n - i,
    {
        if line.get_char(i) == '\t' {
            proof {
                lemma_find_tab_least(line@, i as int);
            }
            return line.substring_char(0, i).to_owned();
        }
        i += 1;
    }
    proof {
        lemma_find_tab_least(line@, n as int);
    }
    line.to_owned()
}

/// The position of the first argument that equals `needle`, if any; the
/// handlers use it to spot a mode flag among the raw arguments.
pub fn position_of(args: &Vec<String>, needle: &str) -> (r: Option<usize>)
    ensures
        (match r {
            Some(i) => i < args.deep_view().len() && args.deep_view()[i as int] == needle@
                && forall|j: int| 0 <= j < i ==> args.deep_view()[j] != needle@,
            None => forall|j: int| 0 <= j < args.deep_view().len() ==> args.deep_view()[j] != needle@,
        }),
{
    let mut i: usize = 0;
    while i < args.len()
        invariant
            i <= args.len(),
            forall|j: int| 0 <= j < i ==> args.deep_view()[j] != needle@,
        decreases args.len() - i,
    {
        if str_eq(args[i].as_str(), needle) {
            return Some(i);
        }
        i += 1;
    }
    None
}

} // verus!
