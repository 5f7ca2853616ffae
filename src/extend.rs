//! Applying a configuration extension: entries that replace those of the same
//! id, and entries whose definitions or conflicts are added to them.

use vstd::prelude::*;
use crate::parse::strings_view;
use crate::text::{chars_eq, chars_of};
use crate::types::{ClassDefinition, Config, ConfigExtension, ConfigGroupsPart, ConflictEntry, NamedGroup};

verus! {

pub struct GroupView {
    pub id: Seq<char>,
    pub definitions: Seq<ClassDefinition>,
}

pub struct ConflictView {
    pub id: Seq<char>,
    pub conflicts: Seq<Seq<char>>,
}

pub open spec fn group_views(t: Seq<NamedGroup>) -> Seq<GroupView> {
    t.map_values(|g: NamedGroup| GroupView { id: g.id@, definitions: g.definitions@ })
}

pub open spec fn conflict_views(t: Seq<ConflictEntry>) -> Seq<ConflictView> {
    t.map_values(|c: ConflictEntry| ConflictView { id: c.id@, conflicts: strings_view(c.conflicts@) })
}

/// `i` is the first position of `ids` that holds `id`.
pub open spec fn is_first_id(ids: Seq<Seq<char>>, id: Seq<char>, i: int) -> bool {
    &&& 0 <= i < ids.len()
    &&& ids[i] == id
    &&& forall|j: int| 0 <= j < i ==> ids[j] != id
}

pub open spec fn first_id(ids: Seq<Seq<char>>, id: Seq<char>) -> Option<int> {
    if exists|i: int| is_first_id(ids, id, i) {
        Some(choose|i: int| is_first_id(ids, id, i))
    } else {
        None
    }
}

/// The table `t` with entry `e` put in: where `t` has an entry with `e`'s id,
/// the first such entry is replaced by `e`, or with `extend` gets `e`'s
/// definitions after its own; otherwise `e` is appended.
pub open spec fn put_group(t: Seq<GroupView>, e: GroupView, extend: bool) -> Seq<GroupView> {
    match first_id(t.map_values(|g: GroupView| g.id), e.id) {
        Some(i) => t.update(
            i,
            if extend {
                GroupView { id: t[i].id, definitions: t[i].definitions + e.definitions }
            } else {
                e
            },
        ),
        None => t.push(e),
    }
}

pub open spec fn put_groups(t: Seq<GroupView>, es: Seq<GroupView>, extend: bool) -> Seq<GroupView>
    decreases es.len(),
{
    if es.len() == 0 {
        t
    } else {
        put_group(put_groups(t, es.drop_last(), extend), es.last(), extend)
    }
}

/// As `put_group`, for a conflict map.
pub open spec fn put_conflict(t: Seq<ConflictView>, e: ConflictView, extend: bool) -> Seq<ConflictView> {
    match first_id(t.map_values(|c: ConflictView| c.id), e.id) {
        Some(i) => t.update(
            i,
            if extend {
                ConflictView { id: t[i].id, conflicts: t[i].conflicts + e.conflicts }
            } else {
                e
            },
        ),
        None => t.push(e),
    }
}

pub open spec fn put_conflicts(t: Seq<ConflictView>, es: Seq<ConflictView>, extend: bool) -> Seq<ConflictView>
    decreases es.len(),
{
    if es.len() == 0 {
        t
    } else {
        put_conflict(put_conflicts(t, es.drop_last(), extend), es.last(), extend)
    }
}

fn find_id(ids: Ghost<Seq<Seq<char>>>, table_ids: &Vec<Vec<char>>, id: &Vec<char>) -> (r: Option<usize>)
    requires
        ids@ == table_ids@.map_values(|v: Vec<char>| v@),
    ensures
        match first_id(ids@, id@) {
            Some(i) => r == Some(i as usize),
            None => r is None,
        },
{
    let mut i: usize = 0;
    while i < table_ids.len()
        invariant
            ids@ == table_ids@.map_values(|v: Vec<char>| v@),
            i <= table_ids@.len(),
            forall|j: int| 0 <= j < i ==> ids@[j] != id@,
        decreases table_ids@.len() - i,
    {
        if chars_eq(&table_ids[i], id) {
            assert(is_first_id(ids@, id@, i as int));
            assert forall|m: int| is_first_id(ids@, id@, m) implies m == i by {
                if m > i {
                    assert(ids@[i as int] == id@);
                }
            }
            return Some(i);
        }
        i += 1;
    }
    assert(!exists|m: int| is_first_id(ids@, id@, m));
    None
}

fn group_ids(t: &Vec<NamedGroup>) -> (r: Vec<Vec<char>>)
    ensures
        r@.map_values(|v: Vec<char>| v@) == group_views(t@).map_values(|g: GroupView| g.id),
{
    let mut r: Vec<Vec<char>> = Vec::new();
    let mut i: usize = 0;
    while i < t.len()
        invariant
            i <= t@.len(),
            r@.len() == i,
            forall|k: int| 0 <= k < i ==> (#[trigger] r@[k])@ == t@[k].id@,
        decreases t@.len() - i,
    {
        r.push(chars_of(t[i].id.as_str()));
        i += 1;
    }
    assert(r@.map_values(|v: Vec<char>| v@) =~= group_views(t@).map_values(|g: GroupView| g.id));
    r
}

fn conflict_ids(t: &Vec<ConflictEntry>) -> (r: Vec<Vec<char>>)
    ensures
        r@.map_values(|v: Vec<char>| v@) == conflict_views(t@).map_values(|c: ConflictView| c.id),
{
    let mut r: Vec<Vec<char>> = Vec::new();
    let mut i: usize = 0;
    while i < t.len()
        invariant
            i <= t@.len(),
            r@.len() == i,
            forall|k: int| 0 <= k < i ==> (#[trigger] r@[k])@ == t@[k].id@,
        decreases t@.len() - i,
    {
        r.push(chars_of(t[i].id.as_str()));
        i += 1;
    }
    assert(r@.map_values(|v: Vec<char>| v@) =~= conflict_views(t@).map_values(|c: ConflictView| c.id));
    r
}

/// Puts entry `e` into the table `t` (see `put_group`).
pub fn put_group_exec(t: &mut Vec<NamedGroup>, e: NamedGroup, extend: bool)
    ensures
        group_views(final(t)@) == put_group(group_views(old(t)@), GroupView { id: e.id@, definitions: e.definitions@ }, extend),
{
    let ids = group_ids(t);
    let id = chars_of(e.id.as_str());
    let ghost ev = GroupView { id: e.id@, definitions: e.definitions@ };
    let ghost before = group_views(t@);
    match find_id(Ghost(before.map_values(|g: GroupView| g.id)), &ids, &id) {
        Some(i) => {
            let ghost old_t = t@;
            assert(before.map_values(|g: GroupView| g.id)[i as int] == e.id@);
            if extend {
                let mut g = t.remove(i);
                let ghost old_defs = g.definitions@;
                assert(old_defs == before[i as int].definitions);
                let mut more = e.definitions;
                g.definitions.append(&mut more);
                assert(g.definitions@ == old_defs + ev.definitions);
                let ghost gv = GroupView { id: g.id@, definitions: g.definitions@ };
                t.insert(i, g);
                assert(group_views(t@) =~= before.update(i as int, gv));
            } else {
                t.remove(i);
                t.insert(i, e);
                assert(group_views(t@) =~= before.update(i as int, ev));
            }
            assert(group_views(t@) =~= put_group(before, ev, extend));
        },
        None => {
            t.push(e);
            assert(group_views(t@) =~= put_group(before, ev, extend));
        },
    }
}

/// Puts entry `e` into the conflict map `t` (see `put_conflict`).
pub fn put_conflict_exec(t: &mut Vec<ConflictEntry>, e: ConflictEntry, extend: bool)
    ensures
        conflict_views(final(t)@) == put_conflict(
            conflict_views(old(t)@),
            ConflictView { id: e.id@, conflicts: strings_view(e.conflicts@) },
            extend,
        ),
{
    let ids = conflict_ids(t);
    let id = chars_of(e.id.as_str());
    let ghost ev = ConflictView { id: e.id@, conflicts: strings_view(e.conflicts@) };
    let ghost before = conflict_views(t@);
    match find_id(Ghost(before.map_values(|c: ConflictView| c.id)), &ids, &id) {
        Some(i) => {
            assert(before.map_values(|c: ConflictView| c.id)[i as int] == e.id@);
            if extend {
                let mut c = t.remove(i);
                let ghost old_conflicts = c.conflicts@;
                let mut more = e.conflicts;
                c.conflicts.append(&mut more);
                assert(strings_view(c.conflicts@) =~= strings_view(old_conflicts) + ev.conflicts);
                let ghost cv = ConflictView { id: c.id@, conflicts: strings_view(c.conflicts@) };
                assert(cv == ConflictView { id: before[i as int].id, conflicts: before[i as int].conflicts + ev.conflicts });
                t.insert(i, c);
                assert(conflict_views(t@) =~= before.update(i as int, cv));
            } else {
                t.remove(i);
                t.insert(i, e);
                assert(conflict_views(t@) =~= before.update(i as int, ev));
            }
            assert(conflict_views(t@) =~= put_conflict(before, ev, extend));
        },
        None => {
            t.push(e);
            assert(conflict_views(t@) =~= put_conflict(before, ev, extend));
        },
    }
}

/// The `theme` table after `ext` is applied to `base`.
pub open spec fn theme_after(base: &ConfigGroupsPart, ext: &ConfigExtension) -> Seq<GroupView> {
    let t0 = group_views(base.theme@);
    let t1 = match ext.override_part {
        Some(p) => put_groups(t0, group_views(p.theme@), false),
        None => t0,
    };
    match ext.extend_part {
        Some(p) => put_groups(t1, group_views(p.theme@), true),
        None => t1,
    }
}

/// The `class_groups` table after `ext` is applied to `base`.
pub open spec fn class_groups_after(base: &ConfigGroupsPart, ext: &ConfigExtension) -> Seq<GroupView> {
    let t0 = group_views(base.class_groups@);
    let t1 = match ext.override_part {
        Some(p) => put_groups(t0, group_views(p.class_groups@), false),
        None => t0,
    };
    match ext.extend_part {
        Some(p) => put_groups(t1, group_views(p.class_groups@), true),
        None => t1,
    }
}

/// The `conflicting_class_groups` table after `ext` is applied to `base`.
pub open spec fn conflicting_class_groups_after(base: &ConfigGroupsPart, ext: &ConfigExtension) -> Seq<ConflictView> {
    let t0 = conflict_views(base.conflicting_class_groups@);
    let t1 = match ext.override_part {
        Some(p) => put_conflicts(t0, conflict_views(p.conflicting_class_groups@), false),
        None => t0,
    };
    match ext.extend_part {
        Some(p) => put_conflicts(t1, conflict_views(p.conflicting_class_groups@), true),
        None => t1,
    }
}

/// The `conflicting_class_group_modifiers` table after `ext` is applied to `base`.
pub open spec fn conflicting_class_group_modifiers_after(base: &ConfigGroupsPart, ext: &ConfigExtension) -> Seq<ConflictView> {
    let t0 = conflict_views(base.conflicting_class_group_modifiers@);
    let t1 = match ext.override_part {
        Some(p) => put_conflicts(t0, conflict_views(p.conflicting_class_group_modifiers@), false),
        None => t0,
    };
    match ext.extend_part {
        Some(p) => put_conflicts(t1, conflict_views(p.conflicting_class_group_modifiers@), true),
        None => t1,
    }
}

/// Puts the entries `es`, in order, into the table `t`.
fn put_groups_exec(t: &mut Vec<NamedGroup>, es: Vec<NamedGroup>, extend: bool)
    ensures
        group_views(final(t)@) == put_groups(group_views(old(t)@), group_views(es@), extend),
{
    let ghost orig = group_views(t@);
    let ghost all = group_views(es@);
    let mut es = es;
    let ghost mut k: int = 0;
    while es.len() > 0
        invariant
            0 <= k <= all.len(),
            group_views(t@) == put_groups(orig, all.subrange(0, k), extend),
            group_views(es@) == all.subrange(k, all.len() as int),
            es@.len() == all.len() - k,
        decreases es@.len(),
    {
        let ghost es_before = es@;
        assert(group_views(es_before)[0] == all[k]);
        let e = es.remove(0);
        assert(group_views(es@) =~= all.subrange(k + 1, all.len() as int)) by {
            assert forall|m: int| 0 <= m < es@.len() implies group_views(es@)[m] == all[k + 1 + m] by {
                assert(es@[m] == es_before[m + 1]);
                assert(group_views(es_before)[m + 1] == all[k + 1 + m]);
            }
        }
        put_group_exec(t, e, extend);
        proof {
            k = k + 1;
            assert(all.subrange(0, k).drop_last() =~= all.subrange(0, k - 1));
        }
    }
    assert(all.subrange(0, all.len() as int) =~= all);
}

/// Puts the entries `es`, in order, into the table `t`.
fn put_conflicts_exec(t: &mut Vec<ConflictEntry>, es: Vec<ConflictEntry>, extend: bool)
    ensures
        conflict_views(final(t)@) == put_conflicts(conflict_views(old(t)@), conflict_views(es@), extend),
{
    let ghost orig = conflict_views(t@);
    let ghost all = conflict_views(es@);
    let mut es = es;
    let ghost mut k: int = 0;
    while es.len() > 0
        invariant
            0 <= k <= all.len(),
            conflict_views(t@) == put_conflicts(orig, all.subrange(0, k), extend),
            conflict_views(es@) == all.subrange(k, all.len() as int),
            es@.len() == all.len() - k,
        decreases es@.len(),
    {
        let ghost es_before = es@;
        assert(conflict_views(es_before)[0] == all[k]);
        let e = es.remove(0);
        assert(conflict_views(es@) =~= all.subrange(k + 1, all.len() as int)) by {
            assert forall|m: int| 0 <= m < es@.len() implies conflict_views(es@)[m] == all[k + 1 + m] by {
                assert(es@[m] == es_before[m + 1]);
                assert(conflict_views(es_before)[m + 1] == all[k + 1 + m]);
            }
        }
        put_conflict_exec(t, e, extend);
        proof {
            k = k + 1;
            assert(all.subrange(0, k).drop_last() =~= all.subrange(0, k - 1));
        }
    }
    assert(all.subrange(0, all.len() as int) =~= all);
}

/// Puts the entries of each table of `part` into the same table of `g`.
fn apply_part(g: &mut ConfigGroupsPart, part: ConfigGroupsPart, extend: bool)
    ensures
        group_views(final(g).theme@) == put_groups(group_views(old(g).theme@), group_views(part.theme@), extend),
        group_views(final(g).class_groups@) == put_groups(group_views(old(g).class_groups@), group_views(part.class_groups@), extend),
        conflict_views(final(g).conflicting_class_groups@) == put_conflicts(
            conflict_views(old(g).conflicting_class_groups@),
            conflict_views(part.conflicting_class_groups@),
            extend,
        ),
        conflict_views(final(g).conflicting_class_group_modifiers@) == put_conflicts(
            conflict_views(old(g).conflicting_class_group_modifiers@),
            conflict_views(part.conflicting_class_group_modifiers@),
            extend,
        ),
{
    put_groups_exec(&mut g.theme, part.theme, extend);
    put_groups_exec(&mut g.class_groups, part.class_groups, extend);
    put_conflicts_exec(&mut g.conflicting_class_groups, part.conflicting_class_groups, extend);
    put_conflicts_exec(&mut g.conflicting_class_group_modifiers, part.conflicting_class_group_modifiers, extend);
}

/// The configuration with `extension` applied to its groups: first each entry
/// of the override part replaces the entry of the same id (or is appended),
/// then each entry of the extend part adds its definitions or conflicts to
/// the entry of the same id (or is appended). The static part is kept.
pub fn extend_config(config: Config, extension: ConfigExtension) -> (r: Config)
    ensures
        r.static_part == config.static_part,
        group_views(r.groups_part.theme@) == theme_after(&config.groups_part, &extension),
        group_views(r.groups_part.class_groups@) == class_groups_after(&config.groups_part, &extension),
        conflict_views(r.groups_part.conflicting_class_groups@) == conflicting_class_groups_after(
            &config.groups_part,
            &extension,
        ),
        conflict_views(r.groups_part.conflicting_class_group_modifiers@) == conflicting_class_group_modifiers_after(
            &config.groups_part,
            &extension,
        ),
{
    let Config { static_part, groups_part } = config;
    let mut g = groups_part;
    match extension.override_part {
        Some(p) => apply_part(&mut g, p, false),
        None => {},
    }
    match extension.extend_part {
        Some(p) => apply_part(&mut g, p, true),
        None => {},
    }
    Config { static_part, groups_part: g }
}

} // verus!
