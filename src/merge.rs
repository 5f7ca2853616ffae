//! Classification of whole tokens, and the merge of a class list that drops
//! each class superseded by a later one.

use vstd::prelude::*;
use crate::classify::{class_group_of, spec_class_group};
use crate::parse::{parse_class_name, scan, spec_base, spec_important, spec_postfix, strings_view};
use crate::text::{chars_eq, chars_of, has_prefix_at, string_of, sub_chars};
use crate::types::{Config, ConflictEntry, ExperimentalParsedClassName};

verus! {

/// What the merge needs to know of one token.
pub struct ClassView {
    pub modifiers: Seq<Seq<char>>,
    pub important: bool,
    /// The class group; `None` for a token that no group recognizes.
    pub group: Option<Seq<char>>,
    /// The group was found for the base class without its postfix modifier.
    pub postfix: bool,
}

/// The classification of one token.
#[derive(Debug)]
pub struct ClassInfo {
    pub modifiers: Vec<String>,
    pub important: bool,
    pub group: Option<String>,
    pub has_postfix_modifier: bool,
}

impl View for ClassInfo {
    type V = ClassView;

    open spec fn view(&self) -> ClassView {
        ClassView {
            modifiers: strings_view(self.modifiers@),
            important: self.important,
            group: match self.group {
                Some(g) => Some(g@),
                None => None,
            },
            postfix: self.has_postfix_modifier,
        }
    }
}

/// How many characters the configured prefix and separator take at the start
/// of token `t`; `None` where a prefix is configured and `t` lacks it.
pub open spec fn prefix_len(cfg: &Config, t: Seq<char>) -> Option<int> {
    match cfg.static_part.prefix {
        None => Some(0),
        Some(p) => {
            let pre = p@ + cfg.static_part.separator@;
            if pre.len() <= t.len() && t.subrange(0, pre.len() as int) == pre {
                Some(pre.len() as int)
            } else {
                None
            }
        },
    }
}

/// The postfix position within a base class of length `n`, where it stands
/// past the start and within the base class.
pub open spec fn postfix_in(pos: Option<int>, n: int) -> Option<int> {
    match pos {
        Some(q) => if 0 < q <= n { Some(q) } else { None },
        None => None,
    }
}

/// The group of base class `b` with postfix position `pos`: first the part
/// before the postfix modifier is tried, then the whole base class. An empty
/// base class has no group.
pub open spec fn spec_group(cfg: &Config, b: Seq<char>, pos: Option<int>) -> Option<Seq<char>> {
    let groups = cfg.groups_part.class_groups@;
    let theme = cfg.groups_part.theme@;
    if b.len() == 0 {
        None
    } else {
        match postfix_in(pos, b.len() as int) {
            Some(q) => match spec_class_group(groups, theme, b.subrange(0, q)) {
                Some(g) => Some(g),
                None => spec_class_group(groups, theme, b),
            },
            None => spec_class_group(groups, theme, b),
        }
    }
}

/// Whether the group of `b` was found without the postfix modifier.
pub open spec fn spec_has_postfix(cfg: &Config, b: Seq<char>, pos: Option<int>) -> bool {
    match postfix_in(pos, b.len() as int) {
        Some(q) => spec_class_group(cfg.groups_part.class_groups@, cfg.groups_part.theme@, b.subrange(0, q)) is Some,
        None => false,
    }
}

/// The postfix position that a parse reports.
pub open spec fn position_view(p: Option<usize>) -> Option<int> {
    match p {
        Some(q) => Some(q as int),
        None => None,
    }
}

/// The classification of a class name already split into `modifiers`,
/// `important` flag, base class `base` and postfix position `pos`.
pub open spec fn spec_classify_parsed(cfg: &Config, parsed: ExperimentalParsedClassName) -> ClassView {
    let base = parsed.base_class_name@;
    let pos = position_view(parsed.maybe_postfix_modifier_position);
    ClassView {
        modifiers: strings_view(parsed.modifiers@),
        important: parsed.has_important_modifier,
        group: spec_group(cfg, base, pos),
        postfix: spec_has_postfix(cfg, base, pos),
    }
}

/// The classification of token `t` under `cfg`. Where a prefix is configured,
/// the token must start with the prefix and the separator, which are removed
/// before the token is parsed; a token without them is unrecognized.
pub open spec fn spec_classify(cfg: &Config, t: Seq<char>) -> ClassView {
    let sep = cfg.static_part.separator@;
    match prefix_len(cfg, t) {
        None => ClassView { modifiers: seq![], important: false, group: None, postfix: false },
        Some(l) => {
            let u = t.subrange(l, t.len() as int);
            let base = spec_base(u, sep);
            let pos = spec_postfix(u, sep);
            ClassView {
                modifiers: scan(u, sep, u.len()).modifiers,
                important: spec_important(u, sep),
                group: spec_group(cfg, base, pos),
                postfix: spec_has_postfix(cfg, base, pos),
            }
        },
    }
}

/// The length of the configured prefix and separator where `t` starts with them.
fn prefix_len_exec(cfg: &Config, t: &Vec<char>) -> (r: Option<usize>)
    ensures
        match prefix_len(cfg, t@) {
            Some(l) => r == Some(l as usize) && l <= t@.len(),
            None => r is None,
        },
{
    match &cfg.static_part.prefix {
        None => Some(0),
        Some(p) => {
            let sep = chars_of(cfg.static_part.separator.as_str());
            let mut pre = chars_of(p.as_str());
            let ghost pc_view = pre@;
            let mut k: usize = 0;
            while k < sep.len()
                invariant
                    k <= sep@.len(),
                    pre@ == pc_view + sep@.subrange(0, k as int),
                decreases sep@.len() - k,
            {
                pre.push(sep[k]);
                k += 1;
                assert(pre@ =~= pc_view + sep@.subrange(0, k as int));
            }
            assert(pre@ =~= p@ + cfg.static_part.separator@);
            if pre.len() <= t.len() && has_prefix_at(t, &pre, 0) {
                Some(pre.len())
            } else {
                None
            }
        },
    }
}

/// Classifies the raw token `token`: its modifiers, important flag and class group.
pub fn classify_class(cfg: &Config, token: &str) -> (r: ClassInfo)
    ensures
        r@ == spec_classify(cfg, token@),
{
    let t = chars_of(token);
    let l = match prefix_len_exec(cfg, &t) {
        None => {
            let r = ClassInfo { modifiers: Vec::new(), important: false, group: None, has_postfix_modifier: false };
            assert(r@.modifiers =~= seq![]);
            return r;
        },
        Some(l) => l,
    };
    let u = string_of(&sub_chars(&t, l, t.len()));
    let parsed = parse_class_name(u.as_str(), cfg.static_part.separator.as_str());
    classify_parsed(cfg, parsed)
}

/// Classifies a class name that a parser has already split: the group of its
/// base class, tried first without the postfix modifier.
pub fn classify_parsed(cfg: &Config, parsed: ExperimentalParsedClassName) -> (r: ClassInfo)
    ensures
        r@ == spec_classify_parsed(cfg, parsed),
{
    let b = chars_of(parsed.base_class_name.as_str());
    if b.len() == 0 {
        return ClassInfo {
            modifiers: parsed.modifiers,
            important: parsed.has_important_modifier,
            group: None,
            has_postfix_modifier: false,
        };
    }
    let groups = &cfg.groups_part.class_groups;
    let theme = &cfg.groups_part.theme;
    let try_at: Option<usize> = match parsed.maybe_postfix_modifier_position {
        Some(q) => if q > 0 && q <= b.len() {
            Some(q)
        } else {
            None
        },
        None => None,
    };
    let mut group: Option<String> = None;
    let mut has_postfix = false;
    match try_at {
        Some(q) => {
            let short = sub_chars(&b, 0, q);
            group = class_group_of(groups, theme, &short);
            has_postfix = group.is_some();
        },
        None => {},
    }
    if group.is_none() {
        group = class_group_of(groups, theme, &b);
    }
    ClassInfo {
        modifiers: parsed.modifiers,
        important: parsed.has_important_modifier,
        group,
        has_postfix_modifier: has_postfix,
    }
}

/// `i` is the first entry of `map` whose id is `id`.
pub open spec fn is_first_conflict(map: Seq<ConflictEntry>, id: Seq<char>, i: int) -> bool {
    &&& 0 <= i < map.len()
    &&& map[i].id@ == id
    &&& forall|j: int| 0 <= j < i ==> map[j].id@ != id
}

/// The groups that group `id` invalidates according to `map`.
pub open spec fn conflicts_for(map: Seq<ConflictEntry>, id: Seq<char>) -> Seq<Seq<char>> {
    if exists|i: int| is_first_conflict(map, id, i) {
        strings_view(map[choose|i: int| is_first_conflict(map, id, i)].conflicts@)
    } else {
        seq![]
    }
}

/// The two modifier lists hold the same modifiers, in any order.
pub open spec fn same_modifiers(a: Seq<Seq<char>>, b: Seq<Seq<char>>) -> bool {
    forall|x: Seq<char>| a.contains(x) <==> b.contains(x)
}

/// Groups `a` and `b` exclude each other through the conflict map.
pub open spec fn groups_conflict(cfg: &Config, a: Seq<char>, b: Seq<char>) -> bool {
    let map = cfg.groups_part.conflicting_class_groups@;
    conflicts_for(map, a).contains(b) || conflicts_for(map, b).contains(a)
}

/// A kept class `later` drops the earlier class `earlier`: both are
/// recognized, carry the same modifiers and important flag, and their groups
/// are the same, conflict, or `later`'s postfix modifier conflicts with `earlier`.
pub open spec fn blocks(cfg: &Config, later: ClassView, earlier: ClassView) -> bool {
    &&& later.group is Some
    &&& earlier.group is Some
    &&& same_modifiers(later.modifiers, earlier.modifiers)
    &&& later.important == earlier.important
    &&& {
        let a = later.group->0;
        let b = earlier.group->0;
        ||| a == b
        ||| groups_conflict(cfg, a, b)
        ||| later.postfix && conflicts_for(cfg.groups_part.conflicting_class_group_modifiers@, a).contains(b)
    }
}

/// Whether the merge keeps the class at position `i` of `vs`: it is
/// unrecognized, or no kept class after it drops it.
pub open spec fn kept(cfg: &Config, vs: Seq<ClassView>, i: int) -> bool
    decreases vs.len() - i, vs.len() - i + 1,
{
    if 0 <= i < vs.len() {
        vs[i].group is None || !dropped_from(cfg, vs, i, i + 1)
    } else {
        false
    }
}

/// Whether a kept class at position `j` or later drops the class at position `i`.
pub open spec fn dropped_from(cfg: &Config, vs: Seq<ClassView>, i: int, j: int) -> bool
    decreases vs.len() - i, vs.len() - j,
{
    if 0 <= i < j < vs.len() {
        (kept(cfg, vs, j) && blocks(cfg, vs[j], vs[i])) || dropped_from(cfg, vs, i, j + 1)
    } else {
        false
    }
}

/// The tokens among the first `n` whose classes the merge keeps, in order.
pub open spec fn kept_upto(cfg: &Config, vs: Seq<ClassView>, ts: Seq<Seq<char>>, n: int) -> Seq<Seq<char>>
    decreases n,
{
    if n <= 0 {
        seq![]
    } else if kept(cfg, vs, n - 1) {
        kept_upto(cfg, vs, ts, n - 1).push(ts[n - 1])
    } else {
        kept_upto(cfg, vs, ts, n - 1)
    }
}

/// The words joined by single spaces.
pub open spec fn join(ws: Seq<Seq<char>>) -> Seq<char>
    decreases ws.len(),
{
    if ws.len() == 0 {
        seq![]
    } else if ws.len() == 1 {
        ws[0]
    } else {
        join(ws.drop_last()) + seq![' '] + ws.last()
    }
}

pub open spec fn views_of(cfg: &Config, ts: Seq<Seq<char>>) -> Seq<ClassView> {
    ts.map_values(|t: Seq<char>| spec_classify(cfg, t))
}

pub open spec fn info_views(infos: Seq<ClassInfo>) -> Seq<ClassView> {
    infos.map_values(|c: ClassInfo| c@)
}

/// The merge of the tokens `ts`, classified as `vs`.
pub open spec fn spec_merge_classified(cfg: &Config, ts: Seq<Seq<char>>, vs: Seq<ClassView>) -> Seq<char> {
    join(kept_upto(cfg, vs, ts, ts.len() as int))
}

/// The merge of the tokens `ts`.
pub open spec fn spec_merge(cfg: &Config, ts: Seq<Seq<char>>) -> Seq<char> {
    spec_merge_classified(cfg, ts, views_of(cfg, ts))
}

/// Whether `list` holds a string equal to `x`.
fn list_contains(list: &Vec<String>, x: &Vec<char>) -> (r: bool)
    ensures
        r == strings_view(list@).contains(x@),
{
    let mut i: usize = 0;
    while i < list.len()
        invariant
            i <= list@.len(),
            forall|k: int| 0 <= k < i ==> list@[k]@ != x@,
        decreases list@.len() - i,
    {
        let c = chars_of(list[i].as_str());
        if chars_eq(&c, x) {
            assert(strings_view(list@)[i as int] == x@);
            return true;
        }
        i += 1;
    }
    assert(!strings_view(list@).contains(x@)) by {
        if strings_view(list@).contains(x@) {
            let k = choose|k: int| 0 <= k < list@.len() && strings_view(list@)[k] == x@;
            assert(list@[k]@ == x@);
        }
    }
    false
}

/// Whether group `a` invalidates group `b` according to `map`.
fn map_lists(map: &Vec<ConflictEntry>, a: &Vec<char>, b: &Vec<char>) -> (r: bool)
    ensures
        r == conflicts_for(map@, a@).contains(b@),
{
    let mut i: usize = 0;
    while i < map.len()
        invariant
            i <= map@.len(),
            forall|j: int| 0 <= j < i ==> map@[j].id@ != a@,
        decreases map@.len() - i,
    {
        let k = chars_of(map[i].id.as_str());
        if chars_eq(&k, a) {
            assert(is_first_conflict(map@, a@, i as int));
            assert forall|m: int| is_first_conflict(map@, a@, m) implies m == i by {
                if m > i {
                    assert(map@[i as int].id@ == a@);
                }
            }
            return list_contains(&map[i].conflicts, b);
        }
        i += 1;
    }
    assert(!exists|m: int| is_first_conflict(map@, a@, m));
    assert(conflicts_for(map@, a@) =~= seq![]);
    false
}

/// Whether every modifier of `a` is in `b`.
fn modifiers_within(a: &Vec<String>, b: &Vec<String>) -> (r: bool)
    ensures
        r == forall|x: Seq<char>| strings_view(a@).contains(x) ==> strings_view(b@).contains(x),
{
    let mut i: usize = 0;
    while i < a.len()
        invariant
            i <= a@.len(),
            forall|k: int| 0 <= k < i ==> strings_view(b@).contains(#[trigger] a@[k]@),
        decreases a@.len() - i,
    {
        let c = chars_of(a[i].as_str());
        if !list_contains(b, &c) {
            assert(strings_view(a@)[i as int] == c@);
            return false;
        }
        i += 1;
    }
    assert forall|x: Seq<char>| strings_view(a@).contains(x) implies strings_view(b@).contains(x) by {
        let k = choose|k: int| 0 <= k < a@.len() && strings_view(a@)[k] == x;
        assert(a@[k]@ == x);
    }
    true
}

/// Whether the kept class `later` drops the earlier class `earlier`.
fn blocks_exec(cfg: &Config, later: &ClassInfo, earlier: &ClassInfo) -> (r: bool)
    ensures
        r == blocks(cfg, later@, earlier@),
{
    let (a, b) = match (&later.group, &earlier.group) {
        (Some(a), Some(b)) => (chars_of(a.as_str()), chars_of(b.as_str())),
        _ => {
            return false;
        },
    };
    if later.important != earlier.important {
        return false;
    }
    if !(modifiers_within(&later.modifiers, &earlier.modifiers) && modifiers_within(&earlier.modifiers, &later.modifiers)) {
        return false;
    }
    let map = &cfg.groups_part.conflicting_class_groups;
    chars_eq(&a, &b) || map_lists(map, &a, &b) || map_lists(map, &b, &a) || (later.has_postfix_modifier
        && map_lists(&cfg.groups_part.conflicting_class_group_modifiers, &a, &b))
}

/// For each class of `infos`, whether the merge keeps it.
fn kept_flags(cfg: &Config, infos: &Vec<ClassInfo>) -> (r: Vec<bool>)
    ensures
        r@.len() == infos@.len(),
        forall|i: int| 0 <= i < infos@.len() ==> r@[i] == kept(cfg, info_views(infos@), i),
{
    let n = infos.len();
    let ghost vs = info_views(infos@);
    let mut flags: Vec<bool> = Vec::new();
    let mut k: usize = 0;
    while k < n
        invariant
            n == infos@.len(),
            k <= n,
            flags@.len() == k,
        decreases n - k,
    {
        flags.push(false);
        k += 1;
    }
    let mut i: usize = n;
    while i > 0
        invariant
            n == infos@.len(),
            vs == info_views(infos@),
            i <= n,
            flags@.len() == n,
            forall|j: int| i <= j < n ==> flags@[j] == kept(cfg, vs, j),
        decreases i,
    {
        let idx = i - 1;
        let mut keep = true;
        assert(vs[idx as int] == infos@[idx as int]@);
        if infos[idx].group.is_some() {
            let mut j: usize = idx + 1;
            while j < n && keep
                invariant
                    n == infos@.len(),
                    vs == info_views(infos@),
                    idx < j <= n,
                    flags@.len() == n,
                    forall|m: int| idx < m < n ==> flags@[m] == kept(cfg, vs, m),
                    dropped_from(cfg, vs, idx as int, idx + 1) == (!keep || dropped_from(cfg, vs, idx as int, j as int)),
                decreases n - j,
            {
                assert(vs[j as int] == infos@[j as int]@);
                if flags[j] && blocks_exec(cfg, &infos[j], &infos[idx]) {
                    keep = false;
                }
                j += 1;
            }
        }
        assert(keep == kept(cfg, vs, idx as int));
        flags.set(idx, keep);
        i = idx;
    }
    flags
}

/// Merges the tokens `tokens`, classified as `infos` (position by position):
/// keeps each class that no later kept class drops, and joins the kept tokens
/// in their order with single spaces.
pub fn merge_classified(cfg: &Config, tokens: &Vec<String>, infos: &Vec<ClassInfo>) -> (r: String)
    requires
        tokens@.len() == infos@.len(),
    ensures
        r@ == spec_merge_classified(cfg, strings_view(tokens@), info_views(infos@)),
{
    let flags = kept_flags(cfg, infos);
    let ghost ts = strings_view(tokens@);
    let ghost vs = info_views(infos@);
    let n = tokens.len();
    let mut out: Vec<char> = Vec::new();
    let mut count: usize = 0;
    let mut i: usize = 0;
    while i < n
        invariant
            n == tokens@.len(),
            n == infos@.len(),
            ts == strings_view(tokens@),
            vs == info_views(infos@),
            flags@.len() == n,
            forall|j: int| 0 <= j < n ==> flags@[j] == kept(cfg, vs, j),
            i <= n,
            count <= i,
            count == kept_upto(cfg, vs, ts, i as int).len(),
            out@ == join(kept_upto(cfg, vs, ts, i as int)),
        decreases n - i,
    {
        if flags[i] {
            let ghost prev = kept_upto(cfg, vs, ts, i as int);
            let w = chars_of(tokens[i].as_str());
            if count > 0 {
                out.push(' ');
            }
            let ghost before = out@;
            let mut k: usize = 0;
            while k < w.len()
                invariant
                    k <= w@.len(),
                    out@ == before + w@.subrange(0, k as int),
                decreases w@.len() - k,
            {
                out.push(w[k]);
                k += 1;
                assert(out@ =~= before + w@.subrange(0, k as int));
            }
            assert(w@.subrange(0, w@.len() as int) =~= w@);
            let ghost next = prev.push(ts[i as int]);
            assert(next.drop_last() =~= prev);
            assert(kept_upto(cfg, vs, ts, i + 1) == next);
            count += 1;
        }
        i += 1;
    }
    string_of(&out)
}

/// Merges the class list `tokens`: classifies each token, keeps each class
/// that no later kept class drops, and joins the kept tokens in their order
/// with single spaces.
pub fn merge_classes(cfg: &Config, tokens: &Vec<String>) -> (r: String)
    ensures
        r@ == spec_merge(cfg, strings_view(tokens@)),
{
    let mut infos: Vec<ClassInfo> = Vec::new();
    let mut i: usize = 0;
    while i < tokens.len()
        invariant
            i <= tokens@.len(),
            infos@.len() == i,
            forall|k: int| 0 <= k < i ==> (#[trigger] infos@[k])@ == spec_classify(cfg, tokens@[k]@),
        decreases tokens@.len() - i,
    {
        infos.push(classify_class(cfg, tokens[i].as_str()));
        i += 1;
    }
    assert(info_views(infos@) =~= views_of(cfg, strings_view(tokens@)));
    merge_classified(cfg, tokens, &infos)
}

pub open spec fn is_space(c: char) -> bool {
    c == ' ' || c == '\t' || c == '\n' || c == '\r' || c == '\x0C'
}

/// The words found so far, and the word being read.
pub struct SplitState {
    pub done: Seq<Seq<char>>,
    pub current: Seq<char>,
}

pub open spec fn split_step(st: SplitState, c: char) -> SplitState {
    if is_space(c) {
        if st.current.len() > 0 {
            SplitState { done: st.done.push(st.current), current: seq![] }
        } else {
            st
        }
    } else {
        SplitState { done: st.done, current: st.current.push(c) }
    }
}

/// The split of the first `n` characters of `s`.
pub open spec fn split_scan(s: Seq<char>, n: nat) -> SplitState
    decreases n,
{
    if n == 0 {
        SplitState { done: seq![], current: seq![] }
    } else {
        split_step(split_scan(s, (n - 1) as nat), s[n - 1])
    }
}

/// The maximal runs of non-whitespace characters of `s`, in order.
pub open spec fn words(s: Seq<char>) -> Seq<Seq<char>> {
    let st = split_scan(s, s.len());
    if st.current.len() > 0 {
        st.done.push(st.current)
    } else {
        st.done
    }
}

/// Splits a class list at whitespace into its tokens.
pub fn split_class_list(class_list: &str) -> (r: Vec<String>)
    ensures
        strings_view(r@) == words(class_list@),
{
    let s = chars_of(class_list);
    let mut done: Vec<String> = Vec::new();
    let mut current: Vec<char> = Vec::new();
    let mut i: usize = 0;
    while i < s.len()
        invariant
            s@ == class_list@,
            i <= s@.len(),
            strings_view(done@) == split_scan(s@, i as nat).done,
            current@ == split_scan(s@, i as nat).current,
        decreases s@.len() - i,
    {
        let c = s[i];
        if c == ' ' || c == '\t' || c == '\n' || c == '\r' || c == '\x0C' {
            if current.len() > 0 {
                let w = string_of(&current);
                done.push(w);
                current = Vec::new();
            }
        } else {
            current.push(c);
        }
        i += 1;
        assert(strings_view(done@) =~= split_scan(s@, i as nat).done);
        assert(current@ =~= split_scan(s@, i as nat).current);
    }
    if current.len() > 0 {
        let w = string_of(&current);
        done.push(w);
        assert(strings_view(done@) =~= words(class_list@));
    }
    done
}

/// Merges a whitespace-separated class list.
pub fn merge_class_list(cfg: &Config, class_list: &str) -> (r: String)
    ensures
        r@ == spec_merge(cfg, words(class_list@)),
{
    let tokens = split_class_list(class_list);
    merge_classes(cfg, &tokens)
}

} // verus!
