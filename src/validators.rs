//! Predicates over raw value strings: numbers, lengths, percentages, sizes,
//! shadows, images, and the bracketed arbitrary-value syntax.

use vstd::prelude::*;
use crate::text::{chars_of, chars_eq_str, sub_chars};

verus! {

/// Fractions such as `1/2` or `25/66`.
pub const FRACTION_PATTERN: &'static str = r"^\d+/\d+$";

/// T-shirt sizes such as `md`, `2xl` or `1.5lg`.
pub const TSHIRT_UNIT_PATTERN: &'static str = r"^(\d+(\.\d+)?)?(xs|sm|md|lg|xl)$";

/// Values that hold a CSS length: a number with a unit, a math function, or `0`.
pub const LENGTH_UNIT_PATTERN: &'static str = r"\d+(%|px|r?em|[sdl]?v([hwib]|min|max)|pt|pc|in|cm|mm|cap|ch|ex|r?lh|cq(w|h|i|b|min|max))|\b(calc|min|max|clamp)\(.+\)|^0$";

/// CSS color functions such as `rgb(...)`, `hsl(...)` or `oklch(...)`.
pub const COLOR_FUNCTION_PATTERN: &'static str = r"^(rgba?|hsla?|hwb|(ok)?(lab|lch))\(.+\)$";

/// Box shadows such as `inset_4px_4px` or `0_35px_60px_-15px_rgba(0,0,0,0.3)`.
pub const SHADOW_PATTERN: &'static str = r"^(inset_)?-?((\d+)?\.?(\d+)[a-z]+|0)_-?((\d+)?\.?(\d+)[a-z]+|0)";

/// Image functions such as `url(...)` or `linear-gradient(...)`.
pub const IMAGE_PATTERN: &'static str = r"^(url|image|image-set|cross-fade|element|(repeating-)?(linear|radial|conic)-gradient)\(.+\)$";

/// Whether `pattern` compiles as a regular expression that matches somewhere in `text`.
pub uninterp spec fn regex_matches(pattern: Seq<char>, text: Seq<char>) -> bool;

/// Relies on `lazy_regex::Regex::new` (the `regex` crate's `Regex::new`) and
/// `Regex::is_match`: the answer depends on the pattern and the text alone; a
/// pattern that does not compile matches nothing.
#[verifier::external_body]
fn regex_is_match(pattern: &str, text: &str) -> (r: bool)
    ensures
        r == regex_matches(pattern@, text@),
{
    match lazy_regex::Regex::new(pattern) {
        Ok(re) => re.is_match(text),
        Err(_) => false,
    }
}

pub open spec fn is_ascii_digit(c: char) -> bool {
    '0' <= c && c <= '9'
}

/// The value without one leading sign character.
pub open spec fn unsigned_part(s: Seq<char>) -> Seq<char> {
    if s.len() > 0 && (s[0] == '+' || s[0] == '-') {
        s.subrange(1, s.len() as int)
    } else {
        s
    }
}

/// Digits with at most one decimal point, and at least one digit.
pub open spec fn decimal_digits(b: Seq<char>) -> bool {
    &&& forall|i: int| 0 <= i < b.len() ==> is_ascii_digit(b[i]) || b[i] == '.'
    &&& forall|i: int, j: int| 0 <= i < j < b.len() && b[i] == '.' ==> b[j] != '.'
    &&& exists|i: int| 0 <= i < b.len() && is_ascii_digit(b[i])
}

/// Every digit after the decimal point is zero.
pub open spec fn zero_fraction(b: Seq<char>) -> bool {
    forall|i: int, j: int| 0 <= i < j < b.len() && b[i] == '.' ==> b[j] == '0'
}

/// A finite number in decimal notation, with an optional sign.
pub open spec fn spec_is_number(s: Seq<char>) -> bool {
    decimal_digits(unsigned_part(s))
}

/// A finite decimal number whose fractional part is zero.
pub open spec fn spec_is_integer(s: Seq<char>) -> bool {
    spec_is_number(s) && zero_fraction(unsigned_part(s))
}

pub open spec fn spec_is_percent(s: Seq<char>) -> bool {
    s.len() > 0 && s.last() == '%' && spec_is_number(s.drop_last())
}

/// One of the fixed length words.
pub open spec fn is_length_word(s: Seq<char>) -> bool {
    s == "px"@ || s == "full"@ || s == "screen"@
}

pub open spec fn spec_is_length(s: Seq<char>) -> bool {
    spec_is_number(s) || is_length_word(s) || regex_matches(FRACTION_PATTERN@, s)
}

pub open spec fn spec_is_length_only(s: Seq<char>) -> bool {
    regex_matches(LENGTH_UNIT_PATTERN@, s) && !regex_matches(COLOR_FUNCTION_PATTERN@, s)
}

/// What stands between the brackets of `[...]`, where `s` has that shape and no line break inside.
pub open spec fn bracket_content(s: Seq<char>) -> Option<Seq<char>> {
    if s.len() >= 3 && s[0] == '[' && s.last() == ']' && (forall|i: int|
        1 <= i < s.len() - 1 ==> s[i] != '\n') {
        Some(s.subrange(1, s.len() - 1))
    } else {
        None
    }
}

pub open spec fn is_label_char(c: char) -> bool {
    ('a' <= c && c <= 'z') || c == '-'
}

/// `c` starts with a label of `k` characters, then `:`, then a non-empty payload.
pub open spec fn label_at(c: Seq<char>, k: int) -> bool {
    &&& 0 < k && k + 1 < c.len()
    &&& forall|i: int| 0 <= i < k ==> is_label_char(#[trigger] c[i])
    &&& c[k] == ':'
}

pub open spec fn has_label(c: Seq<char>) -> bool {
    exists|k: int| label_at(c, k)
}

pub open spec fn label_end(c: Seq<char>) -> int {
    choose|k: int| label_at(c, k)
}

/// The label of an arbitrary value's content, if it carries one.
pub open spec fn content_label(c: Seq<char>) -> Option<Seq<char>> {
    if has_label(c) {
        Some(c.subrange(0, label_end(c)))
    } else {
        None
    }
}

/// The payload of an arbitrary value's content: what follows the label, or all of it.
pub open spec fn content_payload(c: Seq<char>) -> Seq<char> {
    if has_label(c) {
        c.subrange(label_end(c) + 1, c.len() as int)
    } else {
        c
    }
}

pub open spec fn spec_is_arbitrary_value(s: Seq<char>) -> bool {
    bracket_content(s) is Some
}

/// The test run on the payload of an arbitrary value that carries no label.
#[derive(Clone, Copy, Debug, PartialEq, Eq, Structural)]
pub enum PayloadTest {
    Number,
    LengthOnly,
    Never,
    Image,
    Shadow,
}

pub open spec fn payload_passes(t: PayloadTest, p: Seq<char>) -> bool {
    match t {
        PayloadTest::Number => spec_is_number(p),
        PayloadTest::LengthOnly => spec_is_length_only(p),
        PayloadTest::Never => false,
        PayloadTest::Image => regex_matches(IMAGE_PATTERN@, p),
        PayloadTest::Shadow => regex_matches(SHADOW_PATTERN@, p),
    }
}

/// An arbitrary value passes when its label is one of `labels`, or, carrying
/// no label, when its payload passes `test`.
pub open spec fn spec_arbitrary_passes(s: Seq<char>, labels: Seq<Seq<char>>, test: PayloadTest) -> bool {
    match bracket_content(s) {
        None => false,
        Some(c) => match content_label(c) {
            Some(l) => labels.contains(l),
            None => payload_passes(test, c),
        },
    }
}

proof fn lemma_label_unique(c: Seq<char>, k1: int, k2: int)
    requires
        label_at(c, k1),
        label_at(c, k2),
    ensures
        k1 == k2,
{
    if k1 < k2 {
        assert(is_label_char(c[k1]));
    } else if k2 < k1 {
        assert(is_label_char(c[k2]));
    }
}

/// Checks `decimal_digits`, and with `integral` also `zero_fraction`.
fn check_digits(b: &Vec<char>, integral: bool) -> (r: bool)
    ensures
        r == (decimal_digits(b@) && (integral ==> zero_fraction(b@))),
{
    let mut i: usize = 0;
    let mut seen_dot = false;
    let mut seen_digit = false;
    while i < b.len()
        invariant
            i <= b@.len(),
            forall|k: int| 0 <= k < i ==> is_ascii_digit(#[trigger] b@[k]) || b@[k] == '.',
            forall|k: int, j: int| 0 <= k < j < i && b@[k] == '.' ==> b@[j] != '.',
            integral ==> forall|k: int, j: int| 0 <= k < j < i && b@[k] == '.' ==> b@[j] == '0',
            seen_dot == exists|k: int| 0 <= k < i && b@[k] == '.',
            seen_digit == exists|k: int| 0 <= k < i && is_ascii_digit(b@[k]),
        decreases b@.len() - i,
    {
        let c = b[i];
        if c == '.' {
            if seen_dot {
                let ghost k = choose|k: int| 0 <= k < i && b@[k] == '.';
                assert(b@[k] == '.' && b@[i as int] == '.');
                assert(!decimal_digits(b@));
                return false;
            }
            seen_dot = true;
        } else if '0' <= c && c <= '9' {
            if integral && seen_dot && c != '0' {
                let ghost k = choose|k: int| 0 <= k < i && b@[k] == '.';
                assert(b@[k] == '.' && b@[i as int] != '0');
                assert(!zero_fraction(b@));
                return false;
            }
            seen_digit = true;
        } else {
            assert(!(is_ascii_digit(b@[i as int]) || b@[i as int] == '.'));
            return false;
        }
        i += 1;
    }
    seen_digit
}

/// Whether `value` is a finite number in decimal notation, such as `1`, `-2.5` or `.75`.
pub fn is_number(value: &str) -> (r: bool)
    ensures
        r == spec_is_number(value@),
{
    let cs = chars_of(value);
    let b = if cs.len() > 0 && (cs[0] == '+' || cs[0] == '-') {
        sub_chars(&cs, 1, cs.len())
    } else {
        cs
    };
    check_digits(&b, false)
}

/// Whether `value` is a finite decimal number with no fractional part, such as `3` or `3.0`.
pub fn is_integer(value: &str) -> (r: bool)
    ensures
        r == spec_is_integer(value@),
{
    let cs = chars_of(value);
    let b = if cs.len() > 0 && (cs[0] == '+' || cs[0] == '-') {
        sub_chars(&cs, 1, cs.len())
    } else {
        cs
    };
    check_digits(&b, true)
}

/// Whether `value` is a number followed by `%`, such as `12.5%`.
pub fn is_percent(value: &str) -> (r: bool)
    ensures
        r == spec_is_percent(value@),
{
    let cs = chars_of(value);
    if cs.len() > 0 && cs[cs.len() - 1] == '%' {
        let b = sub_chars(&cs, 0, cs.len() - 1);
        assert(b@ =~= value@.drop_last());
        let t = crate::text::string_of(&b);
        is_number(t.as_str())
    } else {
        false
    }
}

pub open spec fn label_views(labels: Seq<&str>) -> Seq<Seq<char>> {
    labels.map_values(|l: &str| l@)
}

/// The fixed words that stand for a length.
pub fn string_lengths() -> (r: Vec<&'static str>)
    ensures
        label_views(r@) == seq!["px"@, "full"@, "screen"@],
{
    let r = vec!["px", "full", "screen"];
    assert(label_views(r@) =~= seq!["px"@, "full"@, "screen"@]);
    r
}

/// The labels that mark an arbitrary value as a size.
pub fn size_labels() -> (r: Vec<&'static str>)
    ensures
        label_views(r@) == seq!["length"@, "size"@, "percentage"@],
{
    let r = vec!["length", "size", "percentage"];
    assert(label_views(r@) =~= seq!["length"@, "size"@, "percentage"@]);
    r
}

/// The labels that mark an arbitrary value as an image.
pub fn image_labels() -> (r: Vec<&'static str>)
    ensures
        label_views(r@) == seq!["image"@, "url"@],
{
    let r = vec!["image", "url"];
    assert(label_views(r@) =~= seq!["image"@, "url"@]);
    r
}

/// Whether the characters `v` are one of `labels`.
fn contains_label(labels: &Vec<&str>, v: &Vec<char>) -> (r: bool)
    ensures
        r == label_views(labels@).contains(v@),
{
    let mut i: usize = 0;
    while i < labels.len()
        invariant
            i <= labels@.len(),
            forall|k: int| 0 <= k < i ==> labels@[k]@ != v@,
        decreases labels@.len() - i,
    {
        if chars_eq_str(v, labels[i]) {
            assert(label_views(labels@)[i as int] == v@);
            return true;
        }
        i += 1;
    }
    assert(!label_views(labels@).contains(v@)) by {
        if label_views(labels@).contains(v@) {
            let k = choose|k: int| 0 <= k < labels@.len() && label_views(labels@)[k] == v@;
            assert(labels@[k]@ == v@);
        }
    }
    false
}

/// Whether `value` is a number, a fixed length word, or a fraction such as `3/4`.
pub fn is_length(value: &str) -> (r: bool)
    ensures
        r == spec_is_length(value@),
{
    if is_number(value) {
        return true;
    }
    let words = string_lengths();
    let cs = chars_of(value);
    if contains_label(&words, &cs) {
        proof { reveal_strlit("px"); reveal_strlit("full"); reveal_strlit("screen"); }
        assert(label_views(words@).contains(value@));
        assert(is_length_word(value@));
        return true;
    }
    assert(!is_length_word(value@)) by {
        if is_length_word(value@) {
            if value@ == "px"@ { assert(label_views(words@)[0] == value@); }
            else if value@ == "full"@ { assert(label_views(words@)[1] == value@); }
            else { assert(label_views(words@)[2] == value@); }
        }
    }
    regex_is_match(FRACTION_PATTERN, value)
}

/// The two parts of an arbitrary value `[label:payload]` or `[payload]`.
struct ArbitraryParts {
    label: Option<Vec<char>>,
    payload: Vec<char>,
}

/// The label and payload of the arbitrary value `cs`, if it has the shape `[...]`.
fn arbitrary_parts(cs: &Vec<char>) -> (r: Option<ArbitraryParts>)
    ensures
        match bracket_content(cs@) {
            None => r is None,
            Some(c) => r is Some && r->0.payload@ == content_payload(c) && match content_label(c) {
                None => r->0.label is None,
                Some(l) => r->0.label is Some && r->0.label->0@ == l,
            },
        },
{
    let n = cs.len();
    if n < 3 || cs[0] != '[' || cs[n - 1] != ']' {
        return None;
    }
    let mut i: usize = 1;
    while i < n - 1
        invariant
            n == cs@.len(),
            n >= 3,
            1 <= i <= n - 1,
            forall|k: int| 1 <= k < i ==> cs@[k] != '\n',
        decreases n - 1 - i,
    {
        if cs[i] == '\n' {
            return None;
        }
        i += 1;
    }
    let c = sub_chars(cs, 1, n - 1);
    assert(bracket_content(cs@) == Some(c@));
    let m = c.len();
    let mut k: usize = 0;
    while k < m && (('a' <= c[k] && c[k] <= 'z') || c[k] == '-')
        invariant
            m == c@.len(),
            k <= m,
            forall|j: int| 0 <= j < k ==> is_label_char(#[trigger] c@[j]),
        decreases m - k,
    {
        k += 1;
    }
    if k > 0 && k + 1 < m && c[k] == ':' {
        assert(label_at(c@, k as int));
        proof { lemma_label_unique(c@, k as int, label_end(c@)); }
        let label = sub_chars(&c, 0, k);
        let payload = sub_chars(&c, k + 1, m);
        Some(ArbitraryParts { label: Some(label), payload })
    } else {
        assert(!has_label(c@)) by {
            if has_label(c@) {
                let j = choose|j: int| label_at(c@, j);
                if j < k {
                    assert(is_label_char(c@[j]));
                } else if j > k {
                    assert(is_label_char(c@[k as int]));
                }
            }
        }
        Some(ArbitraryParts { label: None, payload: c })
    }
}

/// Whether `value` has the arbitrary-value shape `[...]` or `[label:...]`.
pub fn is_arbitrary_value(value: &str) -> (r: bool)
    ensures
        r == spec_is_arbitrary_value(value@),
{
    let cs = chars_of(value);
    arbitrary_parts(&cs).is_some()
}

/// Whether `value` is a t-shirt size such as `md` or `2xl`.
pub fn is_tshirt_size(value: &str) -> (r: bool)
    ensures
        r == regex_matches(TSHIRT_UNIT_PATTERN@, value@),
{
    regex_is_match(TSHIRT_UNIT_PATTERN, value)
}

/// Whether `value` holds a CSS length and is no color function (whose `%`
/// would otherwise read as a length, as in `hsl(0 0% 0%)`).
pub fn is_length_only(value: &str) -> (r: bool)
    ensures
        r == spec_is_length_only(value@),
{
    regex_is_match(LENGTH_UNIT_PATTERN, value) && !regex_is_match(COLOR_FUNCTION_PATTERN, value)
}

/// Accepts nothing.
pub fn is_never() -> (r: bool)
    ensures
        !r,
{
    false
}

/// Whether `value` starts like a box shadow: an optional `inset_`, then two offsets.
pub fn is_shadow(value: &str) -> (r: bool)
    ensures
        r == regex_matches(SHADOW_PATTERN@, value@),
{
    regex_is_match(SHADOW_PATTERN, value)
}

/// Whether `value` is an image function such as `url(...)` or `linear-gradient(...)`.
pub fn is_image(value: &str) -> (r: bool)
    ensures
        r == regex_matches(IMAGE_PATTERN@, value@),
{
    regex_is_match(IMAGE_PATTERN, value)
}

fn payload_test(t: PayloadTest, p: &Vec<char>) -> (r: bool)
    ensures
        r == payload_passes(t, p@),
{
    let s = crate::text::string_of(p);
    match t {
        PayloadTest::Number => is_number(s.as_str()),
        PayloadTest::LengthOnly => is_length_only(s.as_str()),
        PayloadTest::Never => is_never(),
        PayloadTest::Image => is_image(s.as_str()),
        PayloadTest::Shadow => is_shadow(s.as_str()),
    }
}

/// The shared rule of the arbitrary-value validators: a value of the shape
/// `[label:payload]` passes when `label` is one of `labels`; one of the shape
/// `[payload]` passes when its payload passes `test`; anything else fails.
pub fn get_is_arbitrary_value(value: &str, labels: &Vec<&str>, test: PayloadTest) -> (r: bool)
    ensures
        r == spec_arbitrary_passes(value@, label_views(labels@), test),
{
    let cs = chars_of(value);
    match arbitrary_parts(&cs) {
        None => false,
        Some(parts) => match parts.label {
            Some(label) => contains_label(labels, &label),
            None => payload_test(test, &parts.payload),
        },
    }
}

/// `[number:...]`, or a bracketed number such as `[1.5]`.
pub fn is_arbitrary_number(value: &str) -> (r: bool)
    ensures
        r == spec_arbitrary_passes(value@, seq!["number"@], PayloadTest::Number),
{
    let labels = vec!["number"];
    assert(label_views(labels@) =~= seq!["number"@]);
    get_is_arbitrary_value(value, &labels, PayloadTest::Number)
}

/// `[length:...]`, or a bracketed length such as `[3px]` (not `[3%]`).
pub fn is_arbitrary_length(value: &str) -> (r: bool)
    ensures
        r == spec_arbitrary_passes(value@, seq!["length"@], PayloadTest::LengthOnly),
{
    let labels = vec!["length"];
    assert(label_views(labels@) =~= seq!["length"@]);
    get_is_arbitrary_value(value, &labels, PayloadTest::LengthOnly)
}

/// A bracketed value labelled with one of the size labels; nothing unlabelled.
pub fn is_arbitrary_size(value: &str) -> (r: bool)
    ensures
        r == spec_arbitrary_passes(value@, seq!["length"@, "size"@, "percentage"@], PayloadTest::Never),
{
    let labels = size_labels();
    get_is_arbitrary_value(value, &labels, PayloadTest::Never)
}

/// A bracketed value labelled `position`; nothing unlabelled.
pub fn is_arbitrary_position(value: &str) -> (r: bool)
    ensures
        r == spec_arbitrary_passes(value@, seq!["position"@], PayloadTest::Never),
{
    let labels = vec!["position"];
    assert(label_views(labels@) =~= seq!["position"@]);
    get_is_arbitrary_value(value, &labels, PayloadTest::Never)
}

/// A bracketed value labelled `image` or `url`, or a bracketed image function.
pub fn is_arbitrary_image(value: &str) -> (r: bool)
    ensures
        r == spec_arbitrary_passes(value@, seq!["image"@, "url"@], PayloadTest::Image),
{
    let labels = image_labels();
    get_is_arbitrary_value(value, &labels, PayloadTest::Image)
}

/// A bracketed box shadow; a labelled value never passes.
pub fn is_arbitrary_shadow(value: &str) -> (r: bool)
    ensures
        r == spec_arbitrary_passes(value@, seq![], PayloadTest::Shadow),
{
    let labels: Vec<&str> = Vec::new();
    assert(label_views(labels@) =~= seq![]);
    get_is_arbitrary_value(value, &labels, PayloadTest::Shadow)
}

/// The validators that a class definition can name.
#[derive(Clone, Copy, Debug, PartialEq, Eq, Structural)]
pub enum Validator {
    Any,
    Number,
    Integer,
    Percent,
    Length,
    TshirtSize,
    ArbitraryValue,
    ArbitraryNumber,
    ArbitraryLength,
    ArbitrarySize,
    ArbitraryPosition,
    ArbitraryImage,
    ArbitraryShadow,
    LengthOnly,
    Shadow,
    Image,
    Never,
}

pub open spec fn spec_validates(v: Validator, s: Seq<char>) -> bool {
    match v {
        Validator::Any => true,
        Validator::Number => spec_is_number(s),
        Validator::Integer => spec_is_integer(s),
        Validator::Percent => spec_is_percent(s),
        Validator::Length => spec_is_length(s),
        Validator::TshirtSize => regex_matches(TSHIRT_UNIT_PATTERN@, s),
        Validator::ArbitraryValue => spec_is_arbitrary_value(s),
        Validator::ArbitraryNumber => spec_arbitrary_passes(s, seq!["number"@], PayloadTest::Number),
        Validator::ArbitraryLength => spec_arbitrary_passes(s, seq!["length"@], PayloadTest::LengthOnly),
        Validator::ArbitrarySize => spec_arbitrary_passes(
            s,
            seq!["length"@, "size"@, "percentage"@],
            PayloadTest::Never,
        ),
        Validator::ArbitraryPosition => spec_arbitrary_passes(s, seq!["position"@], PayloadTest::Never),
        Validator::ArbitraryImage => spec_arbitrary_passes(s, seq!["image"@, "url"@], PayloadTest::Image),
        Validator::ArbitraryShadow => spec_arbitrary_passes(s, seq![], PayloadTest::Shadow),
        Validator::LengthOnly => spec_is_length_only(s),
        Validator::Shadow => regex_matches(SHADOW_PATTERN@, s),
        Validator::Image => regex_matches(IMAGE_PATTERN@, s),
        Validator::Never => false,
    }
}

/// Runs the validator `v` on `value`.
pub fn validate(v: Validator, value: &str) -> (r: bool)
    ensures
        r == spec_validates(v, value@),
{
    match v {
        Validator::Any => true,
        Validator::Number => is_number(value),
        Validator::Integer => is_integer(value),
        Validator::Percent => is_percent(value),
        Validator::Length => is_length(value),
        Validator::TshirtSize => is_tshirt_size(value),
        Validator::ArbitraryValue => is_arbitrary_value(value),
        Validator::ArbitraryNumber => is_arbitrary_number(value),
        Validator::ArbitraryLength => is_arbitrary_length(value),
        Validator::ArbitrarySize => is_arbitrary_size(value),
        Validator::ArbitraryPosition => is_arbitrary_position(value),
        Validator::ArbitraryImage => is_arbitrary_image(value),
        Validator::ArbitraryShadow => is_arbitrary_shadow(value),
        Validator::LengthOnly => is_length_only(value),
        Validator::Shadow => is_shadow(value),
        Validator::Image => is_image(value),
        Validator::Never => is_never(),
    }
}

} // verus!
