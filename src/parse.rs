//! Splitting a raw class-name token into modifiers, important flag, base
//! class and the position of a postfix modifier.

use vstd::prelude::*;
use crate::text::{chars_of, has_prefix_at, string_of, sub_chars};
use crate::types::ExperimentalParsedClassName;

verus! {

/// What the scan of a token knows after some of its characters.
pub struct ScanState {
    /// The modifiers split off so far.
    pub modifiers: Seq<Seq<char>>,
    /// Open `[` minus closed `]`.
    pub depth: int,
    /// Where the current segment begins.
    pub start: int,
    /// The last `/` seen outside brackets.
    pub postfix: Option<int>,
}

/// The separator `sep` stands at position `i` of `t`, outside brackets and
/// not overlapping the separator before it.
pub open spec fn splits_at(st: ScanState, t: Seq<char>, sep: Seq<char>, i: int) -> bool {
    &&& st.depth == 0
    &&& i >= st.start
    &&& sep.len() > 0
    &&& i + sep.len() <= t.len()
    &&& t.subrange(i, i + sep.len()) == sep
}

pub open spec fn scan_step(st: ScanState, t: Seq<char>, sep: Seq<char>, i: int) -> ScanState {
    if splits_at(st, t, sep, i) {
        ScanState { modifiers: st.modifiers.push(t.subrange(st.start, i)), start: i + sep.len(), ..st }
    } else {
        let postfix = if st.depth == 0 && t[i] == '/' { Some(i) } else { st.postfix };
        let depth = if t[i] == '[' {
            st.depth + 1
        } else if t[i] == ']' {
            st.depth - 1
        } else {
            st.depth
        };
        ScanState { depth, postfix, ..st }
    }
}

/// The scan of the first `n` characters of `t`.
pub open spec fn scan(t: Seq<char>, sep: Seq<char>, n: nat) -> ScanState
    decreases n,
{
    if n == 0 {
        ScanState { modifiers: seq![], depth: 0, start: 0, postfix: None }
    } else {
        scan_step(scan(t, sep, (n - 1) as nat), t, sep, n - 1)
    }
}

/// What follows the last modifier, `!` included.
pub open spec fn rest_of(t: Seq<char>, sep: Seq<char>) -> Seq<char> {
    t.subrange(scan(t, sep, t.len()).start, t.len() as int)
}

pub open spec fn spec_important(t: Seq<char>, sep: Seq<char>) -> bool {
    let rest = rest_of(t, sep);
    rest.len() > 0 && (rest.last() == '!' || rest[0] == '!')
}

/// One when a leading `!` is stripped from the base class.
pub open spec fn lead_len(t: Seq<char>, sep: Seq<char>) -> int {
    let rest = rest_of(t, sep);
    if rest.len() > 0 && rest.last() != '!' && rest[0] == '!' { 1 } else { 0 }
}

pub open spec fn spec_base(t: Seq<char>, sep: Seq<char>) -> Seq<char> {
    let rest = rest_of(t, sep);
    if rest.len() > 0 && rest.last() == '!' {
        rest.drop_last()
    } else if rest.len() > 0 && rest[0] == '!' {
        rest.subrange(1, rest.len() as int)
    } else {
        rest
    }
}

/// The position of the postfix `/` in the base class, if it stands there.
pub open spec fn spec_postfix(t: Seq<char>, sep: Seq<char>) -> Option<int> {
    let st = scan(t, sep, t.len());
    match st.postfix {
        Some(p) => if p >= st.start + lead_len(t, sep) {
            Some(p - st.start - lead_len(t, sep))
        } else {
            None
        },
        None => None,
    }
}

pub open spec fn strings_view(v: Seq<String>) -> Seq<Seq<char>> {
    v.map_values(|m: String| m@)
}

/// The parse of token `t` with separator `sep`.
pub open spec fn parsed_as(r: ExperimentalParsedClassName, t: Seq<char>, sep: Seq<char>) -> bool {
    &&& strings_view(r.modifiers@) == scan(t, sep, t.len()).modifiers
    &&& r.has_important_modifier == spec_important(t, sep)
    &&& r.base_class_name@ == spec_base(t, sep)
    &&& match spec_postfix(t, sep) {
        Some(p) => r.maybe_postfix_modifier_position is Some && r.maybe_postfix_modifier_position->0 as int == p,
        None => r.maybe_postfix_modifier_position is None,
    }
}

/// Splits `class_name` on each `separator` that stands outside brackets: the
/// segments before the last such separator are the modifiers; a `!` at the end
/// or the start of what follows marks the class important and is removed; the
/// last `/` outside brackets in the base class gives the postfix position.
pub fn parse_class_name(class_name: &str, separator: &str) -> (r: ExperimentalParsedClassName)
    ensures
        parsed_as(r, class_name@, separator@),
{
    let t = chars_of(class_name);
    let sep = chars_of(separator);
    let n = t.len();
    let mut modifiers: Vec<String> = Vec::new();
    let mut depth: i128 = 0;
    let mut start: usize = 0;
    let mut postfix: Option<usize> = None;
    let mut i: usize = 0;
    while i < n
        invariant
            n == t@.len(),
            t@ == class_name@,
            sep@ == separator@,
            i <= n,
            start <= n,
            -(i as int) <= depth <= i as int,
            ({
                let st = scan(t@, sep@, i as nat);
                &&& strings_view(modifiers@) == st.modifiers
                &&& depth == st.depth
                &&& start == st.start
                &&& match st.postfix {
                    Some(p) => 0 <= p < i && postfix == Some(p as usize),
                    None => postfix is None,
                }
            }),
        decreases n - i,
    {
        let ghost st = scan(t@, sep@, i as nat);
        if depth == 0 && i >= start && sep.len() > 0 && sep.len() <= n - i && has_prefix_at(&t, &sep, i) {
            assert(splits_at(st, t@, sep@, i as int));
            let m = sub_chars(&t, start, i);
            modifiers.push(string_of(&m));
            assert(strings_view(modifiers@) =~= st.modifiers.push(t@.subrange(st.start, i as int)));
            start = i + sep.len();
            i += 1;
            assert(scan(t@, sep@, i as nat) == scan_step(st, t@, sep@, i - 1));
        } else {
            assert(!splits_at(st, t@, sep@, i as int));
            let c = t[i];
            if depth == 0 && c == '/' {
                postfix = Some(i);
            }
            if c == '[' {
                depth = depth + 1;
            } else if c == ']' {
                depth = depth - 1;
            }
            i += 1;
            assert(scan(t@, sep@, i as nat) == scan_step(st, t@, sep@, i - 1));
        }
    }
    assert(t@.subrange(start as int, n as int) == rest_of(class_name@, separator@));
    let rest = sub_chars(&t, start, n);
    let k = rest.len();
    let mut lead: usize = 0;
    let important;
    let base;
    if k > 0 && rest[k - 1] == '!' {
        important = true;
        base = sub_chars(&rest, 0, k - 1);
        assert(base@ =~= rest@.drop_last());
    } else if k > 0 && rest[0] == '!' {
        important = true;
        lead = 1;
        base = sub_chars(&rest, 1, k);
    } else {
        important = false;
        base = rest;
    }
    let position = match postfix {
        Some(p) => if p >= start + lead {
            Some(p - start - lead)
        } else {
            None
        },
        None => None,
    };
    let r = ExperimentalParsedClassName {
        modifiers,
        has_important_modifier: important,
        base_class_name: string_of(&base),
        maybe_postfix_modifier_position: position,
    };
    assert(strings_view(r.modifiers@) == scan(class_name@, separator@, class_name@.len()).modifiers);
    assert(r.has_important_modifier == spec_important(class_name@, separator@));
    assert(lead == lead_len(class_name@, separator@));
    assert(r.base_class_name@ == spec_base(class_name@, separator@));
    r
}

} // verus!
