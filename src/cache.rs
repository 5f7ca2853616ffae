//! A merger that owns its configuration and a bounded least-recently-used
//! cache of token classifications.

use vstd::prelude::*;
use crate::merge::{classify_class, merge_classified, spec_classify, spec_merge, ClassInfo, info_views, views_of};
use crate::parse::strings_view;
use crate::text::{chars_eq, chars_of};
use crate::types::Config;

verus! {

/// A token with its classification.
pub struct CacheEntry {
    pub key: String,
    pub info: ClassInfo,
}

/// A copy of `x` with the same view.
fn copy_info(x: &ClassInfo) -> (r: ClassInfo)
    ensures
        r@ == x@,
{
    let mut modifiers: Vec<String> = Vec::new();
    let mut i: usize = 0;
    while i < x.modifiers.len()
        invariant
            i <= x.modifiers@.len(),
            modifiers@.len() == i,
            forall|k: int| 0 <= k < i ==> (#[trigger] modifiers@[k])@ == x.modifiers@[k]@,
        decreases x.modifiers@.len() - i,
    {
        let m = x.modifiers[i].clone();
        modifiers.push(m);
        i += 1;
    }
    assert(strings_view(modifiers@) =~= strings_view(x.modifiers@));
    let group = match &x.group {
        Some(g) => Some(g.clone()),
        None => None,
    };
    ClassInfo { modifiers, important: x.important, group, has_postfix_modifier: x.has_postfix_modifier }
}

/// Merges class lists under one configuration, remembering the classification
/// of up to `cache_size` recently seen tokens.
pub struct TailwindMerge {
    config: Config,
    /// Least recently used first.
    entries: Vec<CacheEntry>,
}

impl TailwindMerge {
    /// The configuration this merger classifies with.
    pub closed spec fn spec_config(&self) -> &Config {
        &self.config
    }

    /// The tokens that the cache holds, least recently used first.
    pub closed spec fn cached_tokens(&self) -> Seq<Seq<char>> {
        self.entries@.map_values(|e: CacheEntry| e.key@)
    }

    /// The cache holds at most `cache_size` entries, each with the
    /// classification of its token.
    pub closed spec fn wf(&self) -> bool {
        &&& self.entries@.len() <= self.config.static_part.cache_size
        &&& forall|i: int| 0 <= i < self.entries@.len() ==> (#[trigger] self.entries@[i]).info@ == spec_classify(&self.config, self.entries@[i].key@)
    }

    /// A merger with an empty cache.
    pub fn new(config: Config) -> (r: Self)
        ensures
            r.wf(),
            *r.spec_config() == config,
            r.cached_tokens().len() == 0,
    {
        TailwindMerge { config, entries: Vec::new() }
    }

    /// The configuration this merger classifies with.
    pub fn config(&self) -> (r: &Config)
        ensures
            r == self.spec_config(),
    {
        &self.config
    }

    /// Classifies `token`, from the cache where it holds the token. The result
    /// is the same as without a cache; the token becomes the most recently
    /// used, and the least recently used entry leaves when the cache is full.
    pub fn classify(&mut self, token: &str) -> (r: ClassInfo)
        requires
            old(self).wf(),
        ensures
            final(self).wf(),
            final(self).spec_config() == old(self).spec_config(),
            r@ == spec_classify(old(self).spec_config(), token@),
    {
        let t = chars_of(token);
        let mut i: usize = 0;
        while i < self.entries.len()
            invariant
                self.wf(),
                self.spec_config() == old(self).spec_config(),
                t@ == token@,
                i <= self.entries@.len(),
            decreases self.entries@.len() - i,
        {
            let k = chars_of(self.entries[i].key.as_str());
            if chars_eq(&k, &t) {
                let ghost ent = self.entries@[i as int];
                assert(ent.key@ == token@);
                assert(ent.info@ == spec_classify(&self.config, ent.key@));
                let ghost before = self.entries@;
                let e = self.entries.remove(i);
                assert(forall|j: int| 0 <= j < self.entries@.len() ==> #[trigger] self.entries@[j] == before.remove(i as int)[j]);
                let r = copy_info(&e.info);
                self.entries.push(e);
                return r;
            }
            i += 1;
        }
        let info = classify_class(&self.config, token);
        let cap = self.config.static_part.cache_size;
        if cap > 0 {
            if self.entries.len() >= cap {
                self.entries.remove(0);
            }
            let copy = copy_info(&info);
            self.entries.push(CacheEntry { key: token.to_owned(), info: copy });
        }
        info
    }

    /// Merges the class list `tokens` as `merge_classes` does under this
    /// merger's configuration, classifying through the cache.
    pub fn merge(&mut self, tokens: &Vec<String>) -> (r: String)
        requires
            old(self).wf(),
        ensures
            final(self).wf(),
            final(self).spec_config() == old(self).spec_config(),
            r@ == spec_merge(old(self).spec_config(), strings_view(tokens@)),
    {
        let mut infos: Vec<ClassInfo> = Vec::new();
        let mut i: usize = 0;
        while i < tokens.len()
            invariant
                self.wf(),
                self.spec_config() == old(self).spec_config(),
                i <= tokens@.len(),
                infos@.len() == i,
                forall|k: int| 0 <= k < i ==> (#[trigger] infos@[k])@ == spec_classify(self.spec_config(), tokens@[k]@),
            decreases tokens@.len() - i,
        {
            let info = self.classify(tokens[i].as_str());
            infos.push(info);
            i += 1;
        }
        assert(info_views(infos@) =~= views_of(&self.config, strings_view(tokens@)));
        merge_classified(&self.config, tokens, &infos)
    }
}

} // verus!
