//! Properties of the merge, stated over the models of `merge` and proved.

use vstd::prelude::*;
use crate::merge::{
    blocks, dropped_from, groups_conflict, is_space, join, kept, kept_upto, same_modifiers, spec_merge,
    split_scan, split_step, views_of, words, ClassView, SplitState,
};
use crate::types::Config;

verus! {

/// The tokens that the merge of `ts` keeps, in order.
pub open spec fn merged_tokens(cfg: &Config, ts: Seq<Seq<char>>) -> Seq<Seq<char>> {
    kept_upto(cfg, views_of(cfg, ts), ts, ts.len() as int)
}

/// The positions of the classes among the first `n` that the merge keeps.
pub open spec fn kept_indices(cfg: &Config, vs: Seq<ClassView>, n: int) -> Seq<int>
    decreases n,
{
    if n <= 0 {
        seq![]
    } else if kept(cfg, vs, n - 1) {
        kept_indices(cfg, vs, n - 1).push(n - 1)
    } else {
        kept_indices(cfg, vs, n - 1)
    }
}

/// `ix` lists, in increasing order, positions of classes of `vs` that the merge
/// keeps, and `ws` holds the classes at those positions.
pub open spec fn kept_selection(cfg: &Config, vs: Seq<ClassView>, ws: Seq<ClassView>, ix: Seq<int>) -> bool {
    &&& ws.len() == ix.len()
    &&& forall|p: int| 0 <= p < ix.len() ==> 0 <= #[trigger] ix[p] < vs.len() && kept(cfg, vs, ix[p]) && ws[p] == vs[ix[p]]
    &&& forall|u: int, v: int| 0 <= u < v < ix.len() ==> ix[u] < ix[v]
}

proof fn lemma_kept_indices(cfg: &Config, vs: Seq<ClassView>, ts: Seq<Seq<char>>, n: int)
    requires
        0 <= n <= ts.len(),
        ts.len() == vs.len(),
    ensures
        kept_upto(cfg, vs, ts, n).len() == kept_indices(cfg, vs, n).len(),
        forall|p: int| 0 <= p < kept_indices(cfg, vs, n).len() ==> 0 <= #[trigger] kept_indices(cfg, vs, n)[p] < n
            && kept(cfg, vs, kept_indices(cfg, vs, n)[p])
            && kept_upto(cfg, vs, ts, n)[p] == ts[kept_indices(cfg, vs, n)[p]],
        forall|u: int, v: int| 0 <= u < v < kept_indices(cfg, vs, n).len() ==> kept_indices(cfg, vs, n)[u] < kept_indices(cfg, vs, n)[v],
    decreases n,
{
    if n > 0 {
        lemma_kept_indices(cfg, vs, ts, n - 1);
    }
}

proof fn lemma_not_dropped(cfg: &Config, vs: Seq<ClassView>, i: int, j: int, m: int)
    requires
        0 <= i < j <= m < vs.len(),
        !dropped_from(cfg, vs, i, j),
        kept(cfg, vs, m),
    ensures
        !blocks(cfg, vs[m], vs[i]),
    decreases m - j,
{
    if j < m {
        lemma_not_dropped(cfg, vs, i, j + 1, m);
    }
}

proof fn lemma_selection_not_dropped(cfg: &Config, vs: Seq<ClassView>, ws: Seq<ClassView>, ix: Seq<int>, q: int, r: int)
    requires
        kept_selection(cfg, vs, ws, ix),
        forall|p: int| q < p < ws.len() ==> kept(cfg, ws, p),
        0 <= q < r <= ws.len(),
        ws[q].group is Some,
    ensures
        !dropped_from(cfg, ws, q, r),
    decreases ws.len() - r,
{
    if r < ws.len() {
        lemma_selection_not_dropped(cfg, vs, ws, ix, q, r + 1);
        let iq = ix[q];
        let ir = ix[r];
        assert(kept(cfg, vs, iq) && ws[q] == vs[iq]);
        assert(kept(cfg, vs, ir) && ws[r] == vs[ir]);
        assert(iq < ir);
        assert(!dropped_from(cfg, vs, iq, iq + 1));
        lemma_not_dropped(cfg, vs, iq, iq + 1, ir);
    }
}

proof fn lemma_selection_all_kept(cfg: &Config, vs: Seq<ClassView>, ws: Seq<ClassView>, ix: Seq<int>, q: int)
    requires
        kept_selection(cfg, vs, ws, ix),
        0 <= q <= ws.len(),
    ensures
        forall|p: int| q <= p < ws.len() ==> kept(cfg, ws, p),
    decreases ws.len() - q,
{
    if q < ws.len() {
        lemma_selection_all_kept(cfg, vs, ws, ix, q + 1);
        if ws[q].group is Some {
            lemma_selection_not_dropped(cfg, vs, ws, ix, q, q + 1);
        }
        assert(kept(cfg, ws, q));
    }
}

proof fn lemma_all_kept_upto(cfg: &Config, ws: Seq<ClassView>, ks: Seq<Seq<char>>, n: int)
    requires
        ws.len() == ks.len(),
        0 <= n <= ks.len(),
        forall|p: int| 0 <= p < ks.len() ==> kept(cfg, ws, p),
    ensures
        kept_upto(cfg, ws, ks, n) == ks.subrange(0, n),
    decreases n,
{
    if n > 0 {
        lemma_all_kept_upto(cfg, ws, ks, n - 1);
        assert(ks.subrange(0, n - 1).push(ks[n - 1]) =~= ks.subrange(0, n));
    } else {
        assert(ks.subrange(0, 0) =~= seq![]);
    }
}

/// Merging is idempotent: the merge keeps every token of a merged class list,
/// so merging that list again gives the same tokens and the same string.
pub proof fn lemma_merge_idempotent(cfg: &Config, ts: Seq<Seq<char>>)
    ensures
        merged_tokens(cfg, merged_tokens(cfg, ts)) == merged_tokens(cfg, ts),
        spec_merge(cfg, merged_tokens(cfg, ts)) == spec_merge(cfg, ts),
{
    let vs = views_of(cfg, ts);
    let n = ts.len() as int;
    let ks = merged_tokens(cfg, ts);
    lemma_kept_indices(cfg, vs, ts, n);
    let ix = kept_indices(cfg, vs, n);
    let ws = views_of(cfg, ks);
    assert(kept_selection(cfg, vs, ws, ix));
    lemma_selection_all_kept(cfg, vs, ws, ix, 0);
    lemma_all_kept_upto(cfg, ws, ks, ks.len() as int);
    assert(ks.subrange(0, ks.len() as int) =~= ks);
}

/// Conflicting groups: where a kept class and an earlier class carry the same
/// modifiers and important flag, and their groups conflict in either direction
/// of the conflict map, the merge drops the earlier class, whichever of the two
/// groups it belongs to.
pub proof fn lemma_conflict_drops_earlier(cfg: &Config, vs: Seq<ClassView>, i: int, j: int)
    requires
        0 <= i < j < vs.len(),
        kept(cfg, vs, j),
        vs[i].group is Some,
        vs[j].group is Some,
        same_modifiers(vs[j].modifiers, vs[i].modifiers),
        vs[j].important == vs[i].important,
        groups_conflict(cfg, vs[j].group->0, vs[i].group->0) || groups_conflict(cfg, vs[i].group->0, vs[j].group->0),
    ensures
        !kept(cfg, vs, i),
{
    assert(blocks(cfg, vs[j], vs[i]));
    lemma_dropped_by(cfg, vs, i, i + 1, j);
}

proof fn lemma_dropped_by(cfg: &Config, vs: Seq<ClassView>, i: int, k: int, j: int)
    requires
        0 <= i < k <= j < vs.len(),
        kept(cfg, vs, j),
        blocks(cfg, vs[j], vs[i]),
    ensures
        dropped_from(cfg, vs, i, k),
    decreases j - k,
{
    if k < j {
        lemma_dropped_by(cfg, vs, i, k + 1, j);
    }
}

/// The last class of a list is always kept.
pub proof fn lemma_last_kept(cfg: &Config, vs: Seq<ClassView>)
    requires
        vs.len() > 0,
    ensures
        kept(cfg, vs, vs.len() - 1),
{
    assert(!dropped_from(cfg, vs, vs.len() - 1, vs.len() as int));
}

/// A non-empty run of non-whitespace characters.
pub open spec fn is_word(w: Seq<char>) -> bool {
    w.len() > 0 && forall|i: int| 0 <= i < w.len() ==> !is_space(#[trigger] w[i])
}

proof fn lemma_scan_words(s: Seq<char>, n: nat)
    requires
        n <= s.len(),
    ensures
        forall|p: int| 0 <= p < split_scan(s, n).done.len() ==> is_word(#[trigger] split_scan(s, n).done[p]),
        forall|i: int| 0 <= i < split_scan(s, n).current.len() ==> !is_space(#[trigger] split_scan(s, n).current[i]),
    decreases n,
{
    if n > 0 {
        lemma_scan_words(s, (n - 1) as nat);
        let st = split_scan(s, (n - 1) as nat);
        let c = s[n - 1];
        if !is_space(c) {
            let cur = st.current.push(c);
            assert forall|i: int| 0 <= i < cur.len() implies !is_space(#[trigger] cur[i]) by {
                if i < st.current.len() {
                    assert(cur[i] == st.current[i]);
                }
            }
        }
    }
}

/// Every word that a split yields is a word.
proof fn lemma_words_are_words(s: Seq<char>)
    ensures
        forall|p: int| 0 <= p < words(s).len() ==> is_word(#[trigger] words(s)[p]),
{
    lemma_scan_words(s, s.len());
}

proof fn lemma_scan_prefix(s1: Seq<char>, s2: Seq<char>, n: nat)
    requires
        n <= s1.len(),
        n <= s2.len(),
        s1.subrange(0, n as int) == s2.subrange(0, n as int),
    ensures
        split_scan(s1, n) == split_scan(s2, n),
    decreases n,
{
    if n > 0 {
        assert(s1.subrange(0, n - 1) =~= s1.subrange(0, n as int).subrange(0, n - 1));
        assert(s2.subrange(0, n - 1) =~= s2.subrange(0, n as int).subrange(0, n - 1));
        lemma_scan_prefix(s1, s2, (n - 1) as nat);
        assert(s1[n - 1] == s1.subrange(0, n as int)[n - 1]);
        assert(s2[n - 1] == s2.subrange(0, n as int)[n - 1]);
    }
}

proof fn lemma_scan_word(p: Seq<char>, w: Seq<char>, k: nat)
    requires
        k <= w.len(),
        forall|i: int| 0 <= i < w.len() ==> !is_space(#[trigger] w[i]),
    ensures
        split_scan(p + w, p.len() + k) == (SplitState {
            done: split_scan(p, p.len()).done,
            current: split_scan(p, p.len()).current + w.subrange(0, k as int),
        }),
    decreases k,
{
    let s = p + w;
    if k == 0 {
        assert(s.subrange(0, p.len() as int) =~= p.subrange(0, p.len() as int));
        lemma_scan_prefix(s, p, p.len());
        assert(split_scan(p, p.len()).current + w.subrange(0, 0) =~= split_scan(p, p.len()).current);
    } else {
        lemma_scan_word(p, w, (k - 1) as nat);
        assert(s[p.len() + k - 1] == w[k - 1]);
        let cur = split_scan(p, p.len()).current;
        assert((cur + w.subrange(0, k - 1)).push(w[k - 1]) =~= cur + w.subrange(0, k as int));
    }
}

proof fn lemma_scan_join(ws: Seq<Seq<char>>)
    requires
        ws.len() >= 1,
        forall|p: int| 0 <= p < ws.len() ==> is_word(#[trigger] ws[p]),
    ensures
        split_scan(join(ws), join(ws).len()) == (SplitState { done: ws.drop_last(), current: ws.last() }),
    decreases ws.len(),
{
    let w = ws.last();
    assert(is_word(ws[ws.len() - 1]));
    if ws.len() == 1 {
        let e: Seq<char> = seq![];
        assert(e + w =~= w);
        lemma_scan_word(e, w, w.len());
        assert(w.subrange(0, w.len() as int) =~= w);
        assert(e + w =~= w);
        assert(ws.drop_last() =~= seq![]);
    } else {
        let prev = ws.drop_last();
        assert forall|p: int| 0 <= p < prev.len() implies is_word(#[trigger] prev[p]) by {
            assert(prev[p] == ws[p]);
        }
        lemma_scan_join(prev);
        let jp = join(prev);
        let pre = jp + seq![' '];
        assert(pre.subrange(0, jp.len() as int) =~= jp.subrange(0, jp.len() as int));
        lemma_scan_prefix(pre, jp, jp.len());
        assert(is_word(prev[prev.len() - 1]));
        assert(prev.drop_last().push(prev.last()) =~= prev);
        assert(split_scan(pre, pre.len()) == split_step(split_scan(pre, jp.len()), ' '));
        assert(split_scan(pre, pre.len()) == (SplitState { done: prev, current: seq![] }));
        lemma_scan_word(pre, w, w.len());
        assert(w.subrange(0, w.len() as int) =~= w);
        let e: Seq<char> = seq![];
        assert(e + w =~= w);
        assert(join(ws) == pre + w);
    }
}

/// Splitting words joined by single spaces gives the words back.
pub proof fn lemma_words_of_join(ws: Seq<Seq<char>>)
    requires
        forall|p: int| 0 <= p < ws.len() ==> is_word(#[trigger] ws[p]),
    ensures
        words(join(ws)) == ws,
{
    if ws.len() == 0 {
        assert(words(join(ws)) =~= ws);
    } else {
        lemma_scan_join(ws);
        assert(is_word(ws[ws.len() - 1]));
        assert(ws.drop_last().push(ws.last()) =~= ws);
    }
}

/// Merging a whitespace-separated class list is idempotent: splitting the
/// merged string and merging again gives the same string.
pub proof fn lemma_merge_class_list_idempotent(cfg: &Config, s: Seq<char>)
    ensures
        spec_merge(cfg, words(spec_merge(cfg, words(s)))) == spec_merge(cfg, words(s)),
{
    let ts = words(s);
    let vs = views_of(cfg, ts);
    let ks = merged_tokens(cfg, ts);
    lemma_words_are_words(s);
    lemma_kept_indices(cfg, vs, ts, ts.len() as int);
    assert forall|p: int| 0 <= p < ks.len() implies is_word(#[trigger] ks[p]) by {
        let i = kept_indices(cfg, vs, ts.len() as int)[p];
        assert(ks[p] == ts[i]);
    }
    lemma_words_of_join(ks);
    lemma_merge_idempotent(cfg, ts);
}

} // verus!
