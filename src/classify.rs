//! The class-group classifier: matches a base class against the ordered
//! class-group table, following nested objects and theme references.

use vstd::prelude::*;
use crate::text::{chars_of, chars_eq, has_prefix_at, string_of, sub_chars};
use crate::types::{ClassDefinition, NamedGroup, ThemeGetter};
use crate::validators::{spec_validates, validate};

verus! {

/// How many nested objects and theme references a match may pass through.
/// This keeps classification total on a theme table that refers to itself.
pub const MATCH_DEPTH: u64 = 32;

/// `i` is the first entry of `groups` whose id is `id`.
pub open spec fn is_first_with_id(groups: Seq<NamedGroup>, id: Seq<char>, i: int) -> bool {
    &&& 0 <= i < groups.len()
    &&& groups[i].id@ == id
    &&& forall|j: int| 0 <= j < i ==> groups[j].id@ != id
}

/// The position of the first entry of `groups` with id `id`, if any.
pub open spec fn first_with_id(groups: Seq<NamedGroup>, id: Seq<char>) -> Option<int> {
    if exists|i: int| is_first_with_id(groups, id, i) {
        Some(choose|i: int| is_first_with_id(groups, id, i))
    } else {
        None
    }
}

/// The definitions of the theme scale `key`; empty where the theme lacks it.
pub open spec fn theme_definitions(theme: Seq<NamedGroup>, key: Seq<char>) -> Seq<ClassDefinition> {
    match first_with_id(theme, key) {
        Some(i) => theme[i].definitions@,
        None => seq![],
    }
}

/// What follows key `k` in suffix `s`: nothing where `s` is `k`, the tail
/// where `s` is `k`, `-`, tail; no tail otherwise.
pub open spec fn key_tail(s: Seq<char>, k: Seq<char>) -> Option<Seq<char>> {
    if s == k {
        Some(seq![])
    } else if s.len() > k.len() && s.subrange(0, k.len() as int) == k && s[k.len() as int] == '-' {
        Some(s.subrange(k.len() as int + 1, s.len() as int))
    } else {
        None
    }
}

/// Whether the suffix `s` satisfies the definition `d`, within `depth` levels.
pub open spec fn def_matches(d: ClassDefinition, s: Seq<char>, theme: Seq<NamedGroup>, depth: nat) -> bool
    decreases depth, 0nat,
{
    match d {
        ClassDefinition::String(l) => s == l@,
        ClassDefinition::ClassValidator(v) => s.len() > 0 && spec_validates(v, s),
        ClassDefinition::ThemeGetter(g) => depth > 0 && defs_match(
            theme_definitions(theme, g.key@),
            s,
            theme,
            (depth - 1) as nat,
        ),
        ClassDefinition::ClassObject(entries) => depth > 0 && exists|i: int|
            0 <= i < entries@.len() && match key_tail(s, (#[trigger] entries@[i]).id@) {
                Some(t) => defs_match(entries@[i].definitions@, t, theme, (depth - 1) as nat),
                None => false,
            },
    }
}

/// Whether the suffix `s` satisfies one of the definitions `defs`.
pub open spec fn defs_match(defs: Seq<ClassDefinition>, s: Seq<char>, theme: Seq<NamedGroup>, depth: nat) -> bool
    decreases depth, 1nat,
{
    exists|j: int| 0 <= j < defs.len() && def_matches(defs[j], s, theme, depth)
}

/// The position of the first entry of `groups` with id `id`.
pub fn find_group(groups: &Vec<NamedGroup>, id: &Vec<char>) -> (r: Option<usize>)
    ensures
        match r {
            Some(i) => first_with_id(groups@, id@) == Some(i as int),
            None => first_with_id(groups@, id@) is None,
        },
{
    let mut i: usize = 0;
    while i < groups.len()
        invariant
            i <= groups@.len(),
            forall|j: int| 0 <= j < i ==> groups@[j].id@ != id@,
        decreases groups@.len() - i,
    {
        let k = chars_of(groups[i].id.as_str());
        if chars_eq(&k, id) {
            assert(is_first_with_id(groups@, id@, i as int));
            assert forall|m: int| is_first_with_id(groups@, id@, m) implies m == i by {
                if m < i {
                } else if m > i {
                    assert(groups@[i as int].id@ == id@);
                }
            }
            return Some(i);
        }
        i += 1;
    }
    assert(!exists|m: int| is_first_with_id(groups@, id@, m));
    None
}

/// The class definition that refers to the theme scale `key`.
pub fn from_theme(key: String) -> (r: ThemeGetter)
    ensures
        r.key@ == key@,
{
    ThemeGetter { key }
}

fn key_tail_exec(s: &Vec<char>, k: &Vec<char>) -> (r: Option<Vec<char>>)
    ensures
        match key_tail(s@, k@) {
            Some(t) => r is Some && r->0@ == t,
            None => r is None,
        },
{
    if chars_eq(s, k) {
        let e: Vec<char> = Vec::new();
        assert(e@ =~= seq![]);
        return Some(e);
    }
    if s.len() > k.len() && has_prefix_at(s, k, 0) && s[k.len()] == '-' {
        Some(sub_chars(s, k.len() + 1, s.len()))
    } else {
        None
    }
}

/// Whether the suffix `s` satisfies the definition `d`, within `depth` levels.
pub fn def_matches_exec(d: &ClassDefinition, s: &Vec<char>, theme: &Vec<NamedGroup>, depth: u64) -> (r: bool)
    ensures
        r == def_matches(*d, s@, theme@, depth as nat),
    decreases depth, 0nat,
{
    match d {
        ClassDefinition::String(l) => {
            let lc = chars_of(l.as_str());
            chars_eq(s, &lc)
        },
        ClassDefinition::ClassValidator(v) => {
            if s.len() == 0 {
                return false;
            }
            let value = string_of(s);
            validate(*v, value.as_str())
        },
        ClassDefinition::ThemeGetter(g) => {
            if depth == 0 {
                return false;
            }
            let key = chars_of(g.key.as_str());
            match find_group(theme, &key) {
                Some(i) => defs_match_exec(&theme[i].definitions, s, theme, depth - 1),
                None => {
                    assert(theme_definitions(theme@, g.key@) =~= seq![]);
                    false
                },
            }
        },
        ClassDefinition::ClassObject(entries) => {
            if depth == 0 {
                return false;
            }
            let mut i: usize = 0;
            while i < entries.len()
                invariant
                    i <= entries@.len(),
                    depth > 0,
                    *d == ClassDefinition::ClassObject(*entries),
                    forall|m: int| 0 <= m < i ==> match key_tail(s@, (#[trigger] entries@[m]).id@) {
                        Some(t) => !defs_match(entries@[m].definitions@, t, theme@, (depth - 1) as nat),
                        None => true,
                    },
                decreases entries@.len() - i,
            {
                let k = chars_of(entries[i].id.as_str());
                match key_tail_exec(s, &k) {
                    Some(t) => {
                        if defs_match_exec(&entries[i].definitions, &t, theme, depth - 1) {
                            assert(key_tail(s@, entries@[i as int].id@) == Some(t@));
                            assert(0 <= i < entries@.len() && match key_tail(s@, (entries@[i as int]).id@) {
                                Some(tt) => defs_match(entries@[i as int].definitions@, tt, theme@, (depth - 1) as nat),
                                None => false,
                            });
                            return true;
                        }
                    },
                    None => {},
                }
                i += 1;
            }
            false
        },
    }
}

/// Whether the suffix `s` satisfies one of the definitions `defs`.
pub fn defs_match_exec(defs: &Vec<ClassDefinition>, s: &Vec<char>, theme: &Vec<NamedGroup>, depth: u64) -> (r: bool)
    ensures
        r == defs_match(defs@, s@, theme@, depth as nat),
    decreases depth, 1nat,
{
    let mut j: usize = 0;
    while j < defs.len()
        invariant
            j <= defs@.len(),
            forall|m: int| 0 <= m < j ==> !def_matches(#[trigger] defs@[m], s@, theme@, depth as nat),
        decreases defs@.len() - j,
    {
        if def_matches_exec(&defs[j], s, theme, depth) {
            return true;
        }
        j += 1;
    }
    false
}

/// `i` is the first class group of `groups` that the base class `s` matches.
pub open spec fn is_first_match(groups: Seq<NamedGroup>, theme: Seq<NamedGroup>, s: Seq<char>, i: int) -> bool {
    &&& 0 <= i < groups.len()
    &&& defs_match(groups[i].definitions@, s, theme, MATCH_DEPTH as nat)
    &&& forall|j: int| 0 <= j < i ==> !defs_match(groups[j].definitions@, s, theme, MATCH_DEPTH as nat)
}

/// The id of the first class group that the base class `s` matches, if any.
pub open spec fn spec_class_group(groups: Seq<NamedGroup>, theme: Seq<NamedGroup>, s: Seq<char>) -> Option<Seq<char>> {
    if exists|i: int| is_first_match(groups, theme, s, i) {
        Some(groups[choose|i: int| is_first_match(groups, theme, s, i)].id@)
    } else {
        None
    }
}

/// The id of the first group of the class-group table that the base class
/// `base` matches, resolving theme references against `theme`.
pub fn class_group_of(groups: &Vec<NamedGroup>, theme: &Vec<NamedGroup>, base: &Vec<char>) -> (r: Option<String>)
    ensures
        match spec_class_group(groups@, theme@, base@) {
            Some(id) => r is Some && r->0@ == id,
            None => r is None,
        },
{
    let mut i: usize = 0;
    while i < groups.len()
        invariant
            i <= groups@.len(),
            forall|j: int| 0 <= j < i ==> !defs_match(#[trigger] groups@[j].definitions@, base@, theme@, MATCH_DEPTH as nat),
        decreases groups@.len() - i,
    {
        if defs_match_exec(&groups[i].definitions, base, theme, MATCH_DEPTH) {
            assert(is_first_match(groups@, theme@, base@, i as int));
            assert forall|m: int| is_first_match(groups@, theme@, base@, m) implies m == i by {
                if m > i {
                    assert(defs_match(groups@[i as int].definitions@, base@, theme@, MATCH_DEPTH as nat));
                }
            }
            return Some(groups[i].id.clone());
        }
        i += 1;
    }
    None
}

} // verus!
