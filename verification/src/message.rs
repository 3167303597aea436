//! Bounded diagnostic text.

use vstd::prelude::*;

use crate::text;
use crate::text::chars_of;

verus! {

broadcast use vstd::string::group_string_axioms;

/// The number of bytes of a text in UTF-8.
pub open spec fn utf8_len(s: Seq<char>) -> nat {
    vstd::utf8::encode_utf8(s).len()
}

/// The number of bytes of one character in UTF-8.
pub open spec fn char_width(c: char) -> nat {
    vstd::utf8::encode_scalar(c as u32).len()
}

pub proof fn lemma_utf8_len_push(s: Seq<char>, c: char)
    ensures
        utf8_len(s.push(c)) == utf8_len(s) + char_width(c),
        1 <= char_width(c) <= 4,
    decreases s.len(),
{
    let whole = s.push(c);
    if s.len() == 0 {
        assert(whole.drop_first() =~= Seq::<char>::empty());
        reveal_with_fuel(vstd::utf8::encode_utf8, 2);
    } else {
        assert(whole.drop_first() =~= s.drop_first().push(c));
        assert(whole[0] == s[0]);
        lemma_utf8_len_push(s.drop_first(), c);
    }
}

/// The length of the longest prefix that fits into `limit` bytes.
pub open spec fn fitting_prefix(s: Seq<char>, limit: nat) -> int
    decreases s.len(),
{
    if utf8_len(s) <= limit || s.len() == 0 {
        s.len() as int
    } else {
        fitting_prefix(s.drop_last(), limit)
    }
}

proof fn lemma_fitting_prefix(s: Seq<char>, limit: nat, k: int)
    requires
        0 <= k <= s.len(),
        utf8_len(s.take(k)) <= limit,
        k < s.len() ==> utf8_len(s.take(k + 1)) > limit,
    ensures
        fitting_prefix(s, limit) == k,
    decreases s.len(),
{
    if k == s.len() {
        assert(s.take(k) =~= s);
    } else {
        lemma_utf8_len_monotone(s, k + 1);
        assert(s.drop_last().take(k) =~= s.take(k));
        if k < s.drop_last().len() {
            assert(s.drop_last().take(k + 1) =~= s.take(k + 1));
        }
        lemma_fitting_prefix(s.drop_last(), limit, k);
    }
}

proof fn lemma_utf8_len_monotone(s: Seq<char>, k: int)
    requires
        0 <= k <= s.len(),
    ensures
        utf8_len(s.take(k)) <= utf8_len(s),
    decreases s.len() - k,
{
    if k < s.len() {
        assert(s.take(k + 1) =~= s.take(k).push(s[k]));
        lemma_utf8_len_push(s.take(k), s[k]);
        lemma_utf8_len_monotone(s, k + 1);
    } else {
        assert(s.take(k) =~= s);
    }
}

fn width_of(c: char) -> (r: usize)
    ensures
        r == char_width(c),
        1 <= r <= 4,
{
    let v: u32 = c as u32;
    if v <= 0x7f {
        1
    } else if v <= 0x7ff {
        2
    } else if v <= 0xffff {
        3
    } else {
        4
    }
}

/// At most 1,024 bytes: a text that is longer keeps as many characters as fit
/// beside an ellipsis.
pub open spec fn bounded(s: Seq<char>) -> Seq<char> {
    if utf8_len(s) <= 1_024 {
        s
    } else {
        s.take(fitting_prefix(s, 1_021)).push('\u{2026}')
    }
}

/// No bounded text exceeds 1,024 bytes, and each begins like the text it bounds.
pub proof fn law_bounded_text_fits(s: Seq<char>)
    ensures
        utf8_len(bounded(s)) <= 1_024,
        bounded(s) == s || exists|k: int|
            0 <= k <= s.len() && bounded(s) == #[trigger] s.take(k).push('\u{2026}'),
{
    if utf8_len(s) > 1_024 {
        lemma_fitting_prefix_fits(s, 1_021);
        let k = fitting_prefix(s, 1_021);
        lemma_utf8_len_push(s.take(k), '\u{2026}');
        assert(bounded(s) == s.take(k).push('\u{2026}'));
    }
}

proof fn lemma_fitting_prefix_fits(s: Seq<char>, limit: nat)
    ensures
        0 <= fitting_prefix(s, limit) <= s.len(),
        utf8_len(s.take(fitting_prefix(s, limit))) <= limit,
    decreases s.len(),
{
    if utf8_len(s) <= limit || s.len() == 0 {
        assert(s.take(s.len() as int) =~= s);
        if s.len() == 0 {
            assert(s =~= Seq::<char>::empty());
            assert(vstd::utf8::encode_utf8(s).len() == 0);
        }
    } else {
        lemma_fitting_prefix_fits(s.drop_last(), limit);
        let k = fitting_prefix(s.drop_last(), limit);
        assert(s.drop_last().take(k) =~= s.take(k));
    }
}

/// Shorten a diagnostic message to at most 1,024 bytes.
pub fn bounded_error_message(message: String) -> (r: String)
    ensures
        r@ == bounded(message@),
{
    let chars = chars_of(message.as_str());
    let mut used: u128 = 0;
    let mut kept: usize = 0;
    let mut i: usize = 0;
    proof {
        assert(chars@.take(0) =~= Seq::<char>::empty());
    }
    while i < chars.len()
        invariant
            i <= chars.len(),
            chars@ == message@,
            used == utf8_len(chars@.take(i as int)),
            used <= 4 * i,
            kept <= i,
            utf8_len(chars@.take(kept as int)) <= 1_021,
            kept < i ==> utf8_len(chars@.take(kept + 1)) > 1_021,
        decreases chars.len() - i,
    {
        let width: usize = width_of(chars[i]);
        proof {
            assert(chars@.take(i + 1) =~= chars@.take(i as int).push(chars@[i as int]));
            lemma_utf8_len_push(chars@.take(i as int), chars@[i as int]);
        }
        used = used + width as u128;
        if kept == i && used <= 1_021 {
            kept = i + 1;
        }
        i = i + 1;
    }
    assert(chars@.take(i as int) =~= chars@);
    if used <= 1_024 {
        return message;
    }
    proof {
        if kept == chars@.len() {
            assert(chars@.take(kept as int) =~= chars@);
        }
        lemma_fitting_prefix(chars@, 1_021, kept as int);
    }
    let (head, _tail) = chars.as_slice().split_at(kept);
    let mut r = text::string_of(head);
    r.push('\u{2026}');
    assert(r@ =~= bounded(message@));
    r
}

/// Texts with a separator between neighbours.
pub open spec fn listed(parts: Seq<Seq<char>>, separator: Seq<char>) -> Seq<char>
    decreases parts.len(),
{
    if parts.len() == 0 {
        Seq::empty()
    } else if parts.len() == 1 {
        parts[0]
    } else {
        listed(parts.drop_last(), separator) + separator + parts.last()
    }
}

pub open spec fn string_views(parts: Seq<String>) -> Seq<Seq<char>> {
    parts.map_values(|part: String| part@)
}

/// Join texts with a separator.
pub fn list_texts(parts: &Vec<String>, separator: &str) -> (r: String)
    ensures
        r@ == listed(string_views(parts@), separator@),
{
    let mut r = String::new();
    let mut i: usize = 0;
    proof {
        assert(string_views(parts@.take(0)) =~= Seq::<Seq<char>>::empty());
    }
    while i < parts.len()
        invariant
            i <= parts.len(),
            r@ == listed(string_views(parts@.take(i as int)), separator@),
        decreases parts.len() - i,
    {
        proof {
            let longer = string_views(parts@.take(i + 1));
            assert(longer.drop_last() =~= string_views(parts@.take(i as int)));
            assert(longer.last() == parts@[i as int]@);
        }
        if i > 0 {
            r.append(separator);
        }
        r.append(parts[i].as_str());
        proof {
            assert(r@ =~= listed(string_views(parts@.take(i + 1)), separator@));
        }
        i = i + 1;
    }
    assert(parts@.take(i as int) =~= parts@);
    r
}

/// A message that fits is left as it is. One that does not ends in an ellipsis, keeps as
/// many of its first characters as fit beside it, and then fits.
pub proof fn law_long_message_is_cut(message: String, r: String)
    requires
        call_ensures(bounded_error_message, (message,), r),
    ensures
        utf8_len(message@) <= 1_024 ==> r@ == message@,
        utf8_len(message@) > 1_024 ==> r@.len() > 0 && r@.last() == '\u{2026}' && r@.len()
            <= message@.len() && r@.drop_last() == message@.take(r@.len() - 1),
        utf8_len(r@) <= 1_024,
        utf8_len(message@) > 1_024 ==> utf8_len(message@.take(r@.len() as int)) > 1_021,
{
    law_bounded_text_fits(message@);
    if utf8_len(message@) > 1_024 {
        lemma_longest_prefix(message@, 1_021);
        let k = fitting_prefix(message@, 1_021);
        assert(r@.drop_last() =~= message@.take(k));
    }
}

proof fn lemma_longest_prefix(s: Seq<char>, limit: nat)
    requires
        utf8_len(s) > limit,
        limit > 0,
    ensures
        0 <= fitting_prefix(s, limit) < s.len(),
        utf8_len(s.take(fitting_prefix(s, limit) + 1)) > limit,
    decreases s.len(),
{
    if s.len() == 0 {
        assert(s =~= Seq::<char>::empty());
        reveal_with_fuel(vstd::utf8::encode_utf8, 2);
    } else {
        let rest = s.drop_last();
        if utf8_len(rest) <= limit || rest.len() == 0 {
            assert(fitting_prefix(rest, limit) == rest.len());
            assert(s.take(s.len() as int) =~= s);
        } else {
            lemma_longest_prefix(rest, limit);
            let k = fitting_prefix(rest, limit);
            assert(rest.take(k + 1) =~= s.take(k + 1));
        }
    }
}

/// Texts are listed in order with a separator between any two.
pub proof fn law_texts_are_listed_in_order(
    parts: &Vec<String>,
    more: &Vec<String>,
    last: String,
    separator: &str,
    r: String,
    s: String,
)
    requires
        call_ensures(list_texts, (parts, separator), r),
        call_ensures(list_texts, (more, separator), s),
        more@ == parts@.push(last),
    ensures
        parts@.len() == 0 ==> r@.len() == 0 && s@ == last@,
        parts@.len() > 0 ==> s@ == r@ + separator@ + last@,
{
    assert(string_views(more@).drop_last() =~= string_views(parts@));
    assert(string_views(more@).last() == last@);
}

} // verus!
