//! Character classes, trimming, ASCII case and substring search.

use vstd::prelude::*;

use crate::text::chars_of;

verus! {

/// Unicode's `White_Space` property.
pub open spec fn is_whitespace(c: char) -> bool {
    let v = c as u32;
    ||| 0x09 <= v <= 0x0d
    ||| v == 0x20
    ||| v == 0x85
    ||| v == 0xa0
    ||| v == 0x1680
    ||| 0x2000 <= v <= 0x200a
    ||| 0x2028 <= v <= 0x2029
    ||| v == 0x202f
    ||| v == 0x205f
    ||| v == 0x3000
}

/// Unicode's control characters.
pub open spec fn is_control(c: char) -> bool {
    let v = c as u32;
    v <= 0x1f || 0x7f <= v <= 0x9f
}

pub fn check_whitespace(c: char) -> (r: bool)
    ensures
        r == is_whitespace(c),
{
    let v: u32 = c as u32;
    (0x09 <= v && v <= 0x0d) || v == 0x20 || v == 0x85 || v == 0xa0 || v == 0x1680 || (0x2000 <= v
        && v <= 0x200a) || (0x2028 <= v && v <= 0x2029) || v == 0x202f || v == 0x205f || v
        == 0x3000
}

pub fn check_control(c: char) -> (r: bool)
    ensures
        r == is_control(c),
{
    let v: u32 = c as u32;
    v <= 0x1f || (0x7f <= v && v <= 0x9f)
}

/// Without the leading whitespace.
pub open spec fn trim_start(s: Seq<char>) -> Seq<char>
    decreases s.len(),
{
    if s.len() > 0 && is_whitespace(s[0]) {
        trim_start(s.skip(1))
    } else {
        s
    }
}

/// Without the trailing whitespace.
pub open spec fn trim_end(s: Seq<char>) -> Seq<char>
    decreases s.len(),
{
    if s.len() > 0 && is_whitespace(s.last()) {
        trim_end(s.drop_last())
    } else {
        s
    }
}

/// Without whitespace at either end.
pub open spec fn trim(s: Seq<char>) -> Seq<char> {
    trim_end(trim_start(s))
}

/// Trimming leaves no whitespace at either end, and leaves text without any
/// alone.
pub proof fn lemma_trim(s: Seq<char>)
    ensures
        trim(s).len() <= s.len(),
        trim(s).len() > 0 ==> !is_whitespace(trim(s)[0]) && !is_whitespace(trim(s).last()),
        trim(s).len() == s.len() ==> trim(s) == s,
        trim(trim(s)) == trim(s),
{
    lemma_trim_start(s);
    lemma_trim_end(trim_start(s));
    lemma_trim_start(trim(s));
    lemma_trim_end(trim(s));
}

proof fn lemma_trim_start(s: Seq<char>)
    ensures
        trim_start(s).len() <= s.len(),
        trim_start(s).len() > 0 ==> !is_whitespace(trim_start(s)[0]),
        trim_start(s).len() == s.len() ==> trim_start(s) == s,
    decreases s.len(),
{
    if s.len() > 0 && is_whitespace(s[0]) {
        lemma_trim_start(s.skip(1));
    }
}

proof fn lemma_trim_end(s: Seq<char>)
    ensures
        trim_end(s).len() <= s.len(),
        trim_end(s).len() > 0 ==> trim_end(s)[0] == s[0] && !is_whitespace(trim_end(s).last()),
        trim_end(s).len() == s.len() ==> trim_end(s) == s,
    decreases s.len(),
{
    if s.len() > 0 && is_whitespace(s.last()) {
        lemma_trim_end(s.drop_last());
    }
}

/// Remove whitespace at both ends.
pub fn trim_text(text: &str) -> (r: Vec<char>)
    ensures
        r@ == trim(text@),
{
    let chars = chars_of(text);
    let mut start: usize = 0;
    proof {
        assert(chars@.skip(0) =~= chars@);
    }
    while start < chars.len() && check_whitespace(chars[start])
        invariant
            start <= chars.len(),
            trim_start(chars@.skip(start as int)) == trim_start(chars@),
        decreases chars.len() - start,
    {
        proof {
            let rest = chars@.skip(start as int);
            assert(rest[0] == chars@[start as int]);
            assert(rest.skip(1) =~= chars@.skip(start + 1));
        }
        start = start + 1;
    }
    proof {
        let rest = chars@.skip(start as int);
        if start < chars.len() {
            assert(rest[0] == chars@[start as int]);
        }
        assert(trim_start(rest) == rest);
        assert(chars@.subrange(start as int, chars@.len() as int) =~= rest);
    }
    let mut end: usize = chars.len();
    while end > start && check_whitespace(chars[end - 1])
        invariant
            start <= end <= chars.len(),
            trim_end(chars@.subrange(start as int, end as int)) == trim(chars@),
        decreases end,
    {
        proof {
            let rest = chars@.subrange(start as int, end as int);
            assert(rest.last() == chars@[end - 1]);
            assert(rest.drop_last() =~= chars@.subrange(start as int, end - 1));
        }
        end = end - 1;
    }
    proof {
        let rest = chars@.subrange(start as int, end as int);
        if end > start {
            assert(rest.last() == chars@[end - 1]);
        }
        assert(trim_end(rest) == rest);
    }
    let mut r: Vec<char> = Vec::new();
    let mut i: usize = start;
    while i < end
        invariant
            start <= i <= end <= chars.len(),
            r@ == chars@.subrange(start as int, i as int),
        decreases end - i,
    {
        r.push(chars[i]);
        proof {
            assert(chars@.subrange(start as int, i as int).push(chars@[i as int])
                =~= chars@.subrange(start as int, i + 1));
        }
        i = i + 1;
    }
    r
}

/// The ASCII lower-case form of one character.
pub open spec fn lower_char(c: char) -> char {
    if 'A' <= c && c <= 'Z' {
        ((c as u32) + 32) as char
    } else {
        c
    }
}

/// The ASCII lower-case form of a text.
pub open spec fn lower(s: Seq<char>) -> Seq<char> {
    s.map_values(|c: char| lower_char(c))
}

pub fn lower_of(c: char) -> (r: char)
    ensures
        r == lower_char(c),
{
    if c >= 'A' && c <= 'Z' {
        let code: u8 = c as u8;
        (code + 32) as char
    } else {
        c
    }
}

/// Lower-case every ASCII letter.
pub fn lower_text(text: &str) -> (r: Vec<char>)
    ensures
        r@ == lower(text@),
{
    let chars = chars_of(text);
    let mut r: Vec<char> = Vec::new();
    let mut i: usize = 0;
    while i < chars.len()
        invariant
            i <= chars.len(),
            r@ == lower(chars@.take(i as int)),
        decreases chars.len() - i,
    {
        r.push(lower_of(chars[i]));
        proof {
            assert(lower(chars@.take(i + 1)) =~= lower(chars@.take(i as int)).push(
                lower_char(chars@[i as int]),
            ));
        }
        i = i + 1;
    }
    assert(chars@.take(i as int) =~= chars@);
    r
}

/// Whether `needle` occurs in `hay` at position `at`.
pub open spec fn occurs_at(hay: Seq<char>, needle: Seq<char>, at: int) -> bool {
    0 <= at && at + needle.len() <= hay.len() && hay.subrange(at, at + needle.len()) == needle
}

/// Whether `needle` occurs anywhere in `hay`.
pub open spec fn contains_text(hay: Seq<char>, needle: Seq<char>) -> bool {
    exists|at: int| occurs_at(hay, needle, at)
}

fn check_occurs_at(hay: &[char], needle: &[char], at: usize) -> (r: bool)
    requires
        at + needle.len() <= hay.len(),
    ensures
        r == occurs_at(hay@, needle@, at as int),
{
    let mut i: usize = 0;
    while i < needle.len()
        invariant
            i <= needle.len(),
            at + needle.len() <= hay.len(),
            forall|j: int| 0 <= j < i ==> hay@[at + j] == needle@[j],
        decreases needle.len() - i,
    {
        if hay[at + i] != needle[i] {
            proof {
                assert(hay@.subrange(at as int, at + needle@.len())[i as int] != needle@[i as int]);
            }
            return false;
        }
        i = i + 1;
    }
    assert(hay@.subrange(at as int, at + needle@.len()) =~= needle@);
    true
}

/// Whether one text occurs in another.
pub fn find_text(hay: &[char], needle: &[char]) -> (r: bool)
    ensures
        r == contains_text(hay@, needle@),
{
    if needle.len() > hay.len() {
        return false;
    }
    let last: usize = hay.len() - needle.len();
    let mut at: usize = 0;
    while at <= last
        invariant
            last + needle@.len() == hay@.len(),
            at <= last + 1,
            forall|k: int| 0 <= k < at ==> !occurs_at(hay@, needle@, k),
        decreases last + 1 - at,
    {
        if check_occurs_at(hay, needle, at) {
            return true;
        }
        if at == last {
            return false;
        }
        at = at + 1;
    }
    false
}

proof fn lemma_trim_start_shape(s: Seq<char>) -> (p: int)
    ensures
        0 <= p <= s.len(),
        trim_start(s) == s.skip(p),
        forall|i: int| 0 <= i < p ==> is_whitespace(#[trigger] s[i]),
    decreases s.len(),
{
    if s.len() > 0 && is_whitespace(s[0]) {
        let rest = s.skip(1);
        let p = lemma_trim_start_shape(rest);
        assert(rest.skip(p) =~= s.skip(p + 1));
        assert forall|i: int| 0 <= i < p + 1 implies is_whitespace(#[trigger] s[i]) by {
            if i > 0 {
                assert(rest[i - 1] == s[i]);
            }
        }
        p + 1
    } else {
        assert(s.skip(0) =~= s);
        0
    }
}

proof fn lemma_trim_end_shape(s: Seq<char>) -> (q: int)
    ensures
        0 <= q <= s.len(),
        trim_end(s) == s.take(q),
        forall|i: int| q <= i < s.len() ==> is_whitespace(#[trigger] s[i]),
    decreases s.len(),
{
    if s.len() > 0 && is_whitespace(s.last()) {
        let rest = s.drop_last();
        let q = lemma_trim_end_shape(rest);
        assert(rest.take(q) =~= s.take(q));
        assert forall|i: int| q <= i < s.len() implies is_whitespace(#[trigger] s[i]) by {
            if i < rest.len() {
                assert(rest[i] == s[i]);
            }
        }
        q
    } else {
        assert(s.take(s.len() as int) =~= s);
        s.len() as int
    }
}

/// Trimming takes nothing but whitespace away, and only at the ends: what is left is
/// what stood between, and begins and ends with something else.
pub proof fn law_trimming_takes_only_whitespace(text: &str, r: Vec<char>)
    requires
        call_ensures(trim_text, (text,), r),
    ensures
        exists|p: int, q: int|
            {
                &&& 0 <= p <= q <= text@.len()
                &&& r@ == #[trigger] text@.subrange(p, q)
                &&& forall|i: int| 0 <= i < p ==> is_whitespace(#[trigger] text@[i])
                &&& forall|i: int| q <= i < text@.len() ==> is_whitespace(#[trigger] text@[i])
            },
        r@.len() > 0 ==> !is_whitespace(r@[0]) && !is_whitespace(r@.last()),
{
    let s = text@;
    lemma_trim(s);
    let p = lemma_trim_start_shape(s);
    let rest = s.skip(p);
    let q = lemma_trim_end_shape(rest);
    assert(rest.take(q) =~= s.subrange(p, p + q));
    assert forall|i: int| p + q <= i < s.len() implies is_whitespace(#[trigger] s[i]) by {
        assert(rest[i - p] == s[i]);
    }
    assert(r@ == s.subrange(p, p + q));
}

/// Among ASCII characters, the space and the five that end or indent lines are
/// whitespace, and the first thirty-two and the delete character are controls.
pub proof fn law_ascii_classes(c: char, white: bool, control: bool)
    requires
        call_ensures(check_whitespace, (c,), white),
        call_ensures(check_control, (c,), control),
    ensures
        (c as u32) < 128 ==> (white <==> c == ' ' || c == '\t' || c == '\n' || c == '\u{b}' || c
            == '\u{c}' || c == '\r'),
        (c as u32) < 128 ==> (control <==> (c as u32) < 32 || c == '\u{7f}'),
        128 <= (c as u32) < 160 ==> control,
        (c as u32) >= 160 ==> !control,
        c == '\u{85}' || c == '\u{a0}' || c == '\u{2003}' || c == '\u{2028}' || c == '\u{202f}' || c
            == '\u{3000}' ==> white,
        (c as u32) > 0x3000 || 0xa0 < (c as u32) < 0x1680 ==> !white,
{
}

/// Lower case changes the capital letters of ASCII and nothing else.
pub proof fn law_lower_case_changes_capitals(text: &str, r: Vec<char>, i: int)
    requires
        call_ensures(lower_text, (text,), r),
        0 <= i < text@.len(),
    ensures
        r@.len() == text@.len(),
        65 <= (text@[i] as u32) <= 90 ==> r@[i] as u32 == text@[i] as u32 + 32,
        !(65 <= (text@[i] as u32) <= 90) ==> r@[i] == text@[i],
{
}

/// A text is found exactly where something before it and something after it make up the
/// whole.
pub proof fn law_found_text_is_part_of_the_whole(hay: &[char], needle: &[char], r: bool)
    requires
        call_ensures(find_text, (hay, needle), r),
    ensures
        r <==> exists|before: Seq<char>, after: Seq<char>|
            hay@ == #[trigger] (before + needle@ + after),
{
    if r {
        let at = choose|at: int| occurs_at(hay@, needle@, at);
        let before = hay@.take(at);
        let after = hay@.skip(at + needle@.len());
        assert(hay@ =~= before + needle@ + after);
    }
    if exists|before: Seq<char>, after: Seq<char>|
        hay@ == #[trigger] (before + needle@ + after) {
        let (before, after) = choose|before: Seq<char>, after: Seq<char>|
            hay@ == #[trigger] (before + needle@ + after);
        let at = before.len() as int;
        assert(hay@.subrange(at, at + needle@.len()) =~= needle@);
        assert(occurs_at(hay@, needle@, at));
    }
}

/// A capital letter of ASCII has the small one thirty-two places behind it, and every
/// other character is its own lower case.
pub proof fn law_lower_case_of_a_character(c: char, r: char)
    requires
        call_ensures(lower_of, (c,), r),
    ensures
        65 <= c as int <= 90 ==> r as int == c as int + 32,
        !(65 <= c as int <= 90) ==> r == c,
{
}

} // verus!
