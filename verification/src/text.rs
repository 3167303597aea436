//! Text building blocks: decimal and hexadecimal numbers, trimming, case and
//! search, all over sequences of characters.

use vstd::prelude::*;

use crate::number::magnitude;

verus! {

broadcast use vstd::string::group_string_axioms;

/// `String::push` appends one character.
pub assume_specification[ String::push ](s: &mut String, c: char)
    ensures
        final(s)@ == old(s)@.push(c),
;

/// The characters of a string slice.
pub fn chars_of(text: &str) -> (r: Vec<char>)
    ensures
        r@ == text@,
{
    let mut r: Vec<char> = Vec::new();
    for c in it: text.chars()
        invariant
            r@ == it.seq().take(it.index() as int),
            it.seq() == text@,
    {
        r.push(c);
    }
    r
}

/// A string holding exactly these characters.
pub fn string_of(chars: &[char]) -> (r: String)
    ensures
        r@ == chars@,
{
    let mut r = String::new();
    let mut i: usize = 0;
    while i < chars.len()
        invariant
            i <= chars.len(),
            r@ == chars@.take(i as int),
        decreases chars.len() - i,
    {
        r.push(chars[i]);
        i = i + 1;
    }
    assert(chars@.take(i as int) == chars@);
    r
}

/// Whether two texts hold the same characters.
pub fn same_text(a: &str, b: &str) -> (r: bool)
    ensures
        r == (a@ == b@),
{
    proof {
        vstd::utf8::encode_utf8_decode_utf8(a@);
        vstd::utf8::encode_utf8_decode_utf8(b@);
    }
    same_bytes(a.as_bytes(), b.as_bytes())
}

/// Whether two character slices are equal.
pub fn same_chars(a: &[char], b: &[char]) -> (r: bool)
    ensures
        r == (a@ == b@),
{
    if a.len() != b.len() {
        return false;
    }
    let mut i: usize = 0;
    while i < a.len()
        invariant
            i <= a.len(),
            a.len() == b.len(),
            forall|j: int| 0 <= j < i ==> a@[j] == b@[j],
        decreases a.len() - i,
    {
        if a[i] != b[i] {
            return false;
        }
        i = i + 1;
    }
    assert(a@ == b@);
    true
}

/// Whether two byte slices are equal. Texts of a ledger mostly differ near their
/// end, so the comparison starts there.
pub fn same_bytes(a: &[u8], b: &[u8]) -> (r: bool)
    ensures
        r == (a@ == b@),
{
    if a.len() != b.len() {
        return false;
    }
    let mut i: usize = a.len();
    while i > 0
        invariant
            i <= a.len(),
            a.len() == b.len(),
            forall|j: int| i <= j < a.len() ==> a@[j] == b@[j],
        decreases i,
    {
        if a[i - 1] != b[i - 1] {
            return false;
        }
        i = i - 1;
    }
    assert(a@ =~= b@);
    true
}

/// The character of one decimal digit.
pub open spec fn digit(value: int) -> char {
    (48 + value) as char
}

/// A number in decimal, without leading zeros.
pub open spec fn decimal(n: nat) -> Seq<char>
    decreases n,
{
    if n < 10 {
        seq![digit(n as int)]
    } else {
        decimal(n / 10).push(digit((n % 10) as int))
    }
}

/// `count` copies of the character zero.
pub open spec fn zeros(count: nat) -> Seq<char> {
    Seq::new(count, |i: int| '0')
}

/// A number in decimal, filled with zeros on the left up to `width`.
pub open spec fn padded(n: nat, width: nat) -> Seq<char> {
    let digits = decimal(n);
    if digits.len() >= width {
        digits
    } else {
        zeros((width - digits.len()) as nat) + digits
    }
}

pub open spec fn is_digit(c: char) -> bool {
    '0' <= c && c <= '9'
}

pub open spec fn all_digits(s: Seq<char>) -> bool {
    forall|i: int| 0 <= i < s.len() ==> is_digit(#[trigger] s[i])
}

/// The number that a sequence of digits stands for.
pub open spec fn decimal_value(s: Seq<char>) -> nat
    decreases s.len(),
{
    if s.len() == 0 {
        0
    } else {
        10 * decimal_value(s.drop_last()) + (s.last() as nat - 48) as nat
    }
}

pub proof fn lemma_decimal(n: nat)
    ensures
        decimal(n).len() >= 1,
        all_digits(decimal(n)),
        decimal_value(decimal(n)) == n,
        n > 0 ==> decimal(n)[0] != '0',
        n == 0 ==> decimal(n) == seq!['0'],
    decreases n,
{
    if n >= 10 {
        lemma_decimal(n / 10);
        assert(decimal(n).drop_last() == decimal(n / 10));
        assert(decimal(n)[0] == decimal(n / 10)[0]);
    } else {
        assert(decimal(n).drop_last() == Seq::<char>::empty());
        assert(decimal_value(Seq::<char>::empty()) == 0);
    }
}

/// Digits without a leading zero are the decimal form of their value.
pub proof fn lemma_canonical_decimal(s: Seq<char>)
    requires
        s.len() >= 1,
        all_digits(s),
        s.len() == 1 || s[0] != '0',
    ensures
        decimal(decimal_value(s)) == s,
    decreases s.len(),
{
    let rest = s.drop_last();
    let last = (s.last() as nat - 48) as nat;
    assert(is_digit(s[s.len() - 1]));
    assert(last < 10);
    if s.len() == 1 {
        assert(rest == Seq::<char>::empty());
        assert(decimal_value(rest) == 0);
        assert(decimal(decimal_value(s)) =~= s);
    } else {
        assert forall|i: int| 0 <= i < rest.len() implies is_digit(#[trigger] rest[i]) by {
            assert(is_digit(s[i]));
        }
        assert(rest[0] == s[0]);
        lemma_canonical_decimal_positive(rest);
        if rest.len() == 1 {
            assert(rest[0] != '0');
        }
        lemma_canonical_decimal(rest);
        let value = decimal_value(s);
        assert(value == 10 * decimal_value(rest) + last);
        assert(value / 10 == decimal_value(rest));
        assert(value % 10 == last);
        assert(decimal(value) =~= s);
    }
}

proof fn lemma_canonical_decimal_positive(s: Seq<char>)
    requires
        s.len() >= 1,
        all_digits(s),
        s[0] != '0',
    ensures
        decimal_value(s) >= 1,
    decreases s.len(),
{
    assert(is_digit(s[0]));
    if s.len() > 1 {
        let rest = s.drop_last();
        assert(rest[0] == s[0]);
        assert forall|i: int| 0 <= i < rest.len() implies is_digit(#[trigger] rest[i]) by {
            assert(is_digit(s[i]));
        }
        lemma_canonical_decimal_positive(rest);
    } else {
        assert(s.last() == s[0]);
    }
}

/// Leading zeros do not change the value.
pub proof fn lemma_leading_zeros(count: nat, s: Seq<char>)
    ensures
        decimal_value(zeros(count) + s) == decimal_value(s),
    decreases s.len(), count,
{
    let whole = zeros(count) + s;
    if s.len() == 0 {
        if count > 0 {
            assert(whole.drop_last() =~= zeros((count - 1) as nat) + s);
            lemma_leading_zeros((count - 1) as nat, s);
        } else {
            assert(whole =~= s);
        }
    } else {
        assert(whole.drop_last() =~= zeros(count) + s.drop_last());
        lemma_leading_zeros(count, s.drop_last());
    }
}

pub proof fn lemma_padded(n: nat, width: nat)
    ensures
        padded(n, width).len() == if decimal(n).len() >= width {
            decimal(n).len()
        } else {
            width
        },
        padded(n, width).len() >= 1,
        all_digits(padded(n, width)),
        decimal_value(padded(n, width)) == n,
{
    lemma_decimal(n);
    if decimal(n).len() < width {
        lemma_leading_zeros((width - decimal(n).len()) as nat, decimal(n));
    }
}

/// A decimal number below `10^k` has at most `k` digits, stated for the widths
/// that file names use.
pub proof fn lemma_three_digits(n: nat)
    requires
        n < 1_000,
    ensures
        decimal(n).len() <= 3,
        padded(n, 3).len() == 3,
{
    reveal_with_fuel(decimal, 4);
    lemma_padded(n, 3);
}

/// Three digits stand for a number below one thousand.
pub proof fn lemma_three_digit_value(s: Seq<char>)
    requires
        s.len() == 3,
        all_digits(s),
    ensures
        decimal_value(s) < 1_000,
{
    reveal_with_fuel(decimal_value, 4);
    assert(is_digit(s[0]) && is_digit(s[1]) && is_digit(s[2]));
    assert(s.drop_last()[1] == s[1]);
    assert(s.drop_last().drop_last()[0] == s[0]);
}

/// Digits that fill `width`, or that exceed it without a leading zero, are the
/// padded form of their value.
pub proof fn lemma_canonical_padded(s: Seq<char>, width: nat)
    requires
        1 <= width <= s.len(),
        all_digits(s),
        s.len() == width || s[0] != '0',
    ensures
        padded(decimal_value(s), width) == s,
    decreases s.len(),
{
    if s.len() == 1 || s[0] != '0' {
        lemma_canonical_decimal(s);
    } else {
        let rest = s.drop_first();
        assert forall|i: int| 0 <= i < rest.len() implies is_digit(#[trigger] rest[i]) by {
            assert(is_digit(s[i + 1]));
        }
        assert(s =~= zeros(1) + rest);
        lemma_leading_zeros(1, rest);
        let value = decimal_value(rest);
        lemma_canonical_padded(rest, (width - 1) as nat);
        lemma_decimal(value);
        let digits = decimal(value);
        lemma_padded(value, (width - 1) as nat);
        assert(padded(value, width) =~= s);
    }
}

/// Append a number in decimal.
pub fn push_decimal(out: &mut String, n: u64)
    ensures
        final(out)@ == old(out)@ + decimal(n as nat),
    decreases n,
{
    if n >= 10 {
        push_decimal(out, n / 10);
    }
    let d: u8 = 48 + (n % 10) as u8;
    out.push(d as char);
    proof {
        assert(final(out)@ =~= old(out)@ + decimal(n as nat));
    }
}

/// Append a large number in decimal.
/// The decimal text of a number, with a sign where it is negative.
pub open spec fn signed(n: int) -> Seq<char> {
    if n < 0 {
        seq!['-'] + decimal((-n) as nat)
    } else {
        decimal(n as nat)
    }
}

pub fn push_signed(out: &mut String, n: i64)
    ensures
        final(out)@ == old(out)@ + signed(n as int),
{
    if n < 0 {
        out.push('-');
    }
    push_decimal(out, magnitude(n));
    assert(out@ =~= old(out)@ + signed(n as int));
}

pub fn push_decimal_u128(out: &mut String, n: u128)
    ensures
        final(out)@ == old(out)@ + decimal(n as nat),
    decreases n,
{
    if n >= 10 {
        push_decimal_u128(out, n / 10);
    }
    let d: u8 = 48 + (n % 10) as u8;
    out.push(d as char);
    proof {
        assert(final(out)@ =~= old(out)@ + decimal(n as nat));
    }
}

/// The number of digits of a decimal number.
fn decimal_len(n: u64) -> (r: usize)
    ensures
        r == decimal(n as nat).len(),
        1 <= r <= 20,
{
    let mut rest: u64 = n;
    let mut count: usize = 1;
    proof {
        reveal_with_fuel(vstd::arithmetic::power::pow, 21);
        lemma_decimal_len(n as nat, 20);
    }
    while rest >= 10
        invariant
            count + decimal(rest as nat).len() == decimal(n as nat).len() + 1,
            decimal(rest as nat).len() >= 1,
            decimal(n as nat).len() <= 20,
            1 <= count,
        decreases rest,
    {
        proof {
            lemma_decimal((rest / 10) as nat);
        }
        rest = rest / 10;
        count = count + 1;
    }
    count
}

proof fn lemma_decimal_len(n: nat, k: nat)
    requires
        k >= 1,
        n < vstd::arithmetic::power::pow(10, k),
    ensures
        decimal(n).len() <= k,
    decreases k,
{
    reveal_with_fuel(vstd::arithmetic::power::pow, 2);
    if k > 1 && n >= 10 {
        lemma_decimal_len(n / 10, (k - 1) as nat);
    }
}

/// Append a number in decimal, filled with zeros on the left up to `width`.
pub fn push_padded(out: &mut String, n: u64, width: usize)
    ensures
        final(out)@ == old(out)@ + padded(n as nat, width as nat),
{
    let len: usize = decimal_len(n);
    let mut i: usize = len;
    while i < width
        invariant
            len == decimal(n as nat).len(),
            len <= i,
            i <= width || i == len,
            out@ == old(out)@ + zeros((i - len) as nat),
        decreases width - i,
    {
        out.push('0');
        proof {
            assert(zeros((i - len) as nat).push('0') =~= zeros((i + 1 - len) as nat));
            assert(out@ =~= old(out)@ + zeros((i + 1 - len) as nat));
        }
        i = i + 1;
    }
    proof {
        assert(zeros(0) =~= Seq::<char>::empty());
    }
    push_decimal(out, n);
    proof {
        assert(out@ =~= old(out)@ + padded(n as nat, width as nat));
    }
}

/// Whether every character is a decimal digit.
pub fn check_digits(s: &[char]) -> (r: bool)
    ensures
        r == all_digits(s@),
{
    let mut i: usize = 0;
    while i < s.len()
        invariant
            i <= s.len(),
            forall|j: int| 0 <= j < i ==> is_digit(#[trigger] s@[j]),
        decreases s.len() - i,
    {
        if !(s[i] >= '0' && s[i] <= '9') {
            assert(!is_digit(s@[i as int]));
            return false;
        }
        i = i + 1;
    }
    true
}

proof fn lemma_value_of_prefix(s: Seq<char>, k: int)
    requires
        0 <= k <= s.len(),
        all_digits(s),
    ensures
        decimal_value(s.take(k)) <= decimal_value(s),
    decreases s.len(),
{
    if k == s.len() {
        assert(s.take(k) == s);
    } else {
        assert forall|i: int| 0 <= i < s.drop_last().len() implies is_digit(
            #[trigger] s.drop_last()[i],
        ) by {
            assert(is_digit(s[i]));
        }
        lemma_value_of_prefix(s.drop_last(), k);
        assert(s.drop_last().take(k) == s.take(k));
    }
}

/// Read a number from digits; `None` when it exceeds `u64::MAX`.
pub fn parse_digits(s: &[char]) -> (r: Option<u64>)
    requires
        all_digits(s@),
    ensures
        r == (if decimal_value(s@) <= u64::MAX {
            Some(decimal_value(s@) as u64)
        } else {
            None
        }),
{
    let mut value: u64 = 0;
    let mut i: usize = 0;
    while i < s.len()
        invariant
            i <= s.len(),
            all_digits(s@),
            value == decimal_value(s@.take(i as int)),
        decreases s.len() - i,
    {
        proof {
            assert(is_digit(s@[i as int]));
            assert(s@.take(i + 1).drop_last() == s@.take(i as int));
            lemma_value_of_prefix(s@, i + 1);
        }
        let d: u64 = (s[i] as u32 - 48) as u64;
        match value.checked_mul(10) {
            Some(shifted) => match shifted.checked_add(d) {
                Some(next) => {
                    value = next;
                },
                None => {
                    return None;
                },
            },
            None => {
                return None;
            },
        }
        i = i + 1;
    }
    assert(s@.take(i as int) == s@);
    Some(value)
}

/// Whether digits are a decimal number without leading zeros.
pub fn is_canonical_decimal(s: &[char]) -> (r: bool)
    requires
        s@.len() >= 1,
        all_digits(s@),
    ensures
        r == (decimal(decimal_value(s@)) == s@),
{
    proof {
        lemma_decimal(decimal_value(s@));
        if s@.len() == 1 || s@[0] != '0' {
            lemma_canonical_decimal(s@);
        }
    }
    s.len() == 1 || s[0] != '0'
}

/// Whether digits are a decimal number padded to `width`.
pub fn is_canonical_padded(s: &[char], width: usize) -> (r: bool)
    requires
        1 <= width <= s@.len(),
        all_digits(s@),
    ensures
        r == (padded(decimal_value(s@), width as nat) == s@),
{
    proof {
        lemma_decimal(decimal_value(s@));
        lemma_padded(decimal_value(s@), width as nat);
        if s@.len() == width || s@[0] != '0' {
            lemma_canonical_padded(s@, width as nat);
        }
    }
    s.len() == width || s[0] != '0'
}

/// Parts of a text with one separator between neighbours.
pub open spec fn joined(parts: Seq<Seq<char>>, separator: char) -> Seq<char>
    decreases parts.len(),
{
    if parts.len() == 0 {
        Seq::empty()
    } else if parts.len() == 1 {
        parts[0]
    } else {
        joined(parts.drop_last(), separator).push(separator) + parts.last()
    }
}

/// Whether no part holds the separator.
pub open spec fn separator_free(parts: Seq<Seq<char>>, separator: char) -> bool {
    forall|i: int| 0 <= i < parts.len() ==> !(#[trigger] parts[i]).contains(separator)
}

/// The characters of each part.
pub open spec fn part_views(parts: Seq<Vec<char>>) -> Seq<Seq<char>> {
    parts.map_values(|part: Vec<char>| part@)
}

proof fn lemma_last_separator(parts: Seq<Seq<char>>, separator: char)
    requires
        parts.len() >= 2,
        separator_free(parts, separator),
    ensures
        ({
            let text = joined(parts, separator);
            let at = joined(parts.drop_last(), separator).len();
            &&& text.len() == at + 1 + parts.last().len()
            &&& text[at as int] == separator
            &&& text.take(at as int) == joined(parts.drop_last(), separator)
            &&& text.skip((at + 1) as int) == parts.last()
            &&& forall|i: int| at < i < text.len() ==> text[i] != separator
        }),
{
    let text = joined(parts, separator);
    let head = joined(parts.drop_last(), separator);
    let tail = parts.last();
    assert(text.take(head.len() as int) =~= head);
    assert(text.skip((head.len() + 1) as int) =~= tail);
    assert(!parts[parts.len() - 1].contains(separator));
    assert forall|i: int| head.len() < i < text.len() implies text[i] != separator by {
        assert(text[i] == tail[i - head.len() - 1]);
        assert(tail.contains(tail[i - head.len() - 1]));
    }
}

/// A text has only one division into parts without the separator.
pub proof fn lemma_joined_unique(a: Seq<Seq<char>>, b: Seq<Seq<char>>, separator: char)
    requires
        a.len() >= 1,
        b.len() >= 1,
        separator_free(a, separator),
        separator_free(b, separator),
        joined(a, separator) == joined(b, separator),
    ensures
        a == b,
    decreases a.len(),
{
    if a.len() == 1 && b.len() == 1 {
        assert(a =~= b);
    } else if a.len() == 1 {
        lemma_last_separator(b, separator);
        let at = joined(b.drop_last(), separator).len() as int;
        assert(a[0].contains(a[0][at]));
    } else if b.len() == 1 {
        lemma_last_separator(a, separator);
        let at = joined(a.drop_last(), separator).len() as int;
        assert(b[0].contains(b[0][at]));
    } else {
        lemma_last_separator(a, separator);
        lemma_last_separator(b, separator);
        let at = joined(a.drop_last(), separator).len();
        let bt = joined(b.drop_last(), separator).len();
        assert(at == bt);
        assert forall|i: int| 0 <= i < a.drop_last().len() implies !(#[trigger] a.drop_last()[i]).contains(
            separator,
        ) by {
            assert(!a[i].contains(separator));
        }
        assert forall|i: int| 0 <= i < b.drop_last().len() implies !(#[trigger] b.drop_last()[i]).contains(
            separator,
        ) by {
            assert(!b[i].contains(separator));
        }
        lemma_joined_unique(a.drop_last(), b.drop_last(), separator);
        assert(a =~= a.drop_last().push(a.last()));
        assert(b =~= b.drop_last().push(b.last()));
    }
}

/// Divide a text at every separator.
pub fn split_at_each(text: &[char], separator: char) -> (parts: Vec<Vec<char>>)
    ensures
        parts@.len() >= 1,
        separator_free(part_views(parts@), separator),
        joined(part_views(parts@), separator) == text@,
{
    let mut parts: Vec<Vec<char>> = Vec::new();
    let mut current: Vec<char> = Vec::new();
    let mut i: usize = 0;
    proof {
        assert(part_views(parts@).push(current@) =~= seq![Seq::<char>::empty()]);
        assert(text@.take(0) =~= Seq::<char>::empty());
    }
    while i < text.len()
        invariant
            i <= text.len(),
            separator_free(part_views(parts@), separator),
            !current@.contains(separator),
            joined(part_views(parts@).push(current@), separator) == text@.take(i as int),
        decreases text.len() - i,
    {
        let c = text[i];
        let ghost views = part_views(parts@);
        let ghost open_part = current@;
        proof {
            assert(text@.take(i + 1) =~= text@.take(i as int).push(c));
            assert(views.push(open_part).drop_last() =~= views);
        }
        if c == separator {
            let mut fresh: Vec<char> = Vec::new();
            std::mem::swap(&mut fresh, &mut current);
            parts.push(fresh);
            proof {
                let now = part_views(parts@);
                assert(now =~= views.push(open_part));
                assert forall|j: int| 0 <= j < now.len() implies !(#[trigger] now[j]).contains(
                    separator,
                ) by {
                    if j < views.len() {
                        assert(!views[j].contains(separator));
                    }
                }
                assert(now.push(current@).drop_last() =~= now);
                assert(joined(now.push(current@), separator) =~= text@.take(i + 1));
            }
        } else {
            current.push(c);
            proof {
                assert(views.push(current@).drop_last() =~= views);
                assert(joined(views.push(current@), separator) =~= text@.take(i + 1));
                assert forall|j: int| 0 <= j < current@.len() implies current@[j] != separator by {
                    if j < open_part.len() {
                        assert(open_part.contains(open_part[j]));
                    }
                }
            }
        }
        i = i + 1;
    }
    let ghost views = part_views(parts@);
    let ghost open_part = current@;
    parts.push(current);
    proof {
        let now = part_views(parts@);
        assert(now =~= views.push(open_part));
        assert forall|j: int| 0 <= j < now.len() implies !(#[trigger] now[j]).contains(separator) by {
            if j < views.len() {
                assert(!views[j].contains(separator));
            }
        }
        assert(text@.take(i as int) =~= text@);
    }
    parts
}

/// A number below ten is one digit, and any other is that of its tens with the last
/// digit behind it.
pub proof fn law_decimal_is_written_digit_by_digit(tens: u64, last: u64, n: u64)
    requires
        n == 10 * tens + last,
        last < 10,
    ensures
        forall|a: &mut String, b: &mut String|
            #[trigger] call_ensures(push_decimal, (a, tens), ()) && #[trigger] call_ensures(
                push_decimal,
                (b, n),
                (),
            ) && a@ == b@ ==> {
                &&& tens > 0 ==> final(b)@.drop_last() == final(a)@
                &&& tens == 0 ==> final(b)@.drop_last() == b@
                &&& final(b)@.len() > 0
                &&& final(b)@.last() as int == 48 + last
            },
{
    assert forall|a: &mut String, b: &mut String|
        #[trigger] call_ensures(push_decimal, (a, tens), ()) && #[trigger] call_ensures(
            push_decimal,
            (b, n),
            (),
        ) && a@ == b@ implies {
        &&& tens > 0 ==> final(b)@.drop_last() == final(a)@
        &&& tens == 0 ==> final(b)@.drop_last() == b@
        &&& final(b)@.len() > 0
        &&& final(b)@.last() as int == 48 + last
    } by {
        lemma_decimal(n as nat);
        if tens > 0 {
            assert(final(b)@.drop_last() =~= final(a)@);
        } else {
            assert(final(b)@.drop_last() =~= b@);
        }
    }
}

/// A negative number is written as a sign and the number without it.
pub proof fn law_negative_numbers_have_a_sign(n: i64, m: u64)
    ensures
        forall|a: &mut String, b: &mut String|
            #[trigger] call_ensures(push_signed, (a, n), ()) && #[trigger] call_ensures(
                push_decimal,
                (b, m),
                (),
            ) ==> {
                &&& n == m && a@ == b@ ==> final(a)@ == final(b)@
                &&& n == -m && m > 0 && a@.push('-') == b@ ==> final(a)@ == final(b)@
            },
{
    assert forall|a: &mut String, b: &mut String|
        #[trigger] call_ensures(push_signed, (a, n), ()) && #[trigger] call_ensures(
            push_decimal,
            (b, m),
            (),
        ) && n == -m && m > 0 && a@.push('-') == b@ implies final(a)@ == final(b)@ by {
        assert(final(a)@ =~= final(b)@);
    }
}

/// A padded number is the number with zeros before it, and at least as wide as asked.
pub proof fn law_padding_puts_zeros_before(n: u64, width: usize, i: int)
    ensures
        forall|a: &mut String, b: &mut String|
            #[trigger] call_ensures(push_padded, (a, n, width), ()) && #[trigger] call_ensures(
                push_decimal,
                (b, n),
                (),
            ) && a@.len() == 0 && b@.len() == 0 ==> {
                let fill = final(a)@.len() - final(b)@.len();
                &&& final(a)@.len() >= width
                &&& fill >= 0
                &&& fill > 0 ==> final(a)@.len() == width
                &&& final(a)@.skip(fill) == final(b)@
                &&& 0 <= i < fill ==> final(a)@[i] == '0'
            },
{
    assert forall|a: &mut String, b: &mut String|
        #[trigger] call_ensures(push_padded, (a, n, width), ()) && #[trigger] call_ensures(
            push_decimal,
            (b, n),
            (),
        ) && a@.len() == 0 && b@.len() == 0 implies {
        let fill = final(a)@.len() - final(b)@.len();
        &&& final(a)@.len() >= width
        &&& fill >= 0
        &&& fill > 0 ==> final(a)@.len() == width
        &&& final(a)@.skip(fill) == final(b)@
        &&& 0 <= i < fill ==> final(a)@[i] == '0'
    } by {
        lemma_padded(n as nat, width as nat);
        assert(final(a)@ =~= padded(n as nat, width as nat));
        assert(final(b)@ =~= decimal(n as nat));
        let fill = final(a)@.len() - final(b)@.len();
        assert(final(a)@.skip(fill) =~= final(b)@);
    }
}

/// Digits are the ten of ASCII.
pub proof fn law_digits_are_ascii(s: &[char], r: bool)
    requires
        call_ensures(check_digits, (s,), r),
    ensures
        r <==> forall|i: int| 0 <= i < s@.len() ==> 48 <= (#[trigger] s@[i] as int) <= 57,
{
    if forall|i: int| 0 <= i < s@.len() ==> 48 <= (#[trigger] s@[i] as int) <= 57 {
        assert forall|i: int| 0 <= i < s@.len() implies is_digit(#[trigger] s@[i]) by {
            assert(48 <= (s@[i] as int) <= 57);
        }
    }
}

/// Each digit that is read counts ten times as much as the one behind it, and a number
/// that does not fit is refused.
pub proof fn law_digits_are_read_tenfold(
    shorter: &[char],
    longer: &[char],
    last: char,
    r: Option<u64>,
    s: Option<u64>,
)
    requires
        call_ensures(parse_digits, (shorter,), r),
        call_ensures(parse_digits, (longer,), s),
        longer@ == shorter@.push(last),
        48 <= (last as int) <= 57,
    ensures
        shorter@.len() == 0 ==> r == Some(0u64),
        r matches Some(n) ==> (10 * n + (last as int - 48) <= u64::MAX ==> s == Some(
            (10 * n + (last as int - 48)) as u64,
        )),
        r matches Some(n) ==> (10 * n + (last as int - 48) > u64::MAX ==> s is None),
        r is None ==> s is None,
{
    assert(longer@.drop_last() =~= shorter@);
}

proof fn lemma_small_value(s: Seq<char>)
    requires
        all_digits(s),
        s.len() >= 1,
    ensures
        decimal(decimal_value(s)) == s <==> s.len() == 1 || s[0] != '0',
{
    if s.len() == 1 || s[0] != '0' {
        lemma_canonical_decimal(s);
    } else if decimal(decimal_value(s)) == s {
        lemma_decimal(decimal_value(s));
    }
}

/// Digits are a number's own exactly where no zero leads them, and its padded form
/// exactly where none leads them beyond the width.
pub proof fn law_canonical_numbers_have_no_extra_zeros(
    s: &[char],
    width: usize,
    plain: bool,
    padded_to_width: bool,
)
    requires
        call_ensures(is_canonical_decimal, (s,), plain),
        call_ensures(is_canonical_padded, (s, width), padded_to_width),
        all_digits(s@),
        1 <= width <= s@.len(),
    ensures
        plain <==> s@.len() == 1 || s@[0] != '0',
        padded_to_width <==> s@.len() == width || s@[0] != '0',
{
    lemma_small_value(s@);
    let n = decimal_value(s@);
    if s@.len() == width || s@[0] != '0' {
        lemma_canonical_padded(s@, width as nat);
    } else if padded(n, width as nat) == s@ {
        lemma_padded(n, width as nat);
        lemma_decimal(n);
        assert(decimal(n) == s@);
    }
}

/// A text is divided at its last separator into what comes before, divided, and the
/// rest.
pub proof fn law_text_is_divided_at_each_separator(
    before: &[char],
    whole: &[char],
    rest: Seq<char>,
    separator: char,
    r: Vec<Vec<char>>,
    s: Vec<Vec<char>>,
)
    requires
        call_ensures(split_at_each, (before, separator), r),
        call_ensures(split_at_each, (whole, separator), s),
        !rest.contains(separator),
        whole@ == before@.push(separator) + rest,
    ensures
        s@.len() == r@.len() + 1,
        s@.last()@ == rest,
        forall|i: int| 0 <= i < r@.len() ==> (#[trigger] s@[i])@ == r@[i]@,
        !before@.contains(separator) ==> r@.len() == 1 && r@[0]@ == before@,
{
    let a = part_views(s@);
    let b = part_views(r@).push(rest);
    assert(b.drop_last() =~= part_views(r@));
    assert(joined(b, separator) == whole@);
    assert forall|i: int| 0 <= i < b.len() implies !(#[trigger] b[i]).contains(separator) by {
        if i < r@.len() {
            assert(b[i] == part_views(r@)[i]);
        }
    }
    lemma_joined_unique(a, b, separator);
    assert forall|i: int| 0 <= i < r@.len() implies (#[trigger] s@[i])@ == r@[i]@ by {
        assert(a[i] == b[i]);
    }
    assert(a.last() == b.last());
    if !before@.contains(separator) {
        let c = seq![before@];
        lemma_joined_unique(part_views(r@), c, separator);
        assert(part_views(r@)[0] == c[0]);
    }
}

/// Texts and bytes are the same where they are equally long and agree at every place.
pub proof fn law_same_means_equal_everywhere(
    a: &[u8],
    b: &[u8],
    c: &[char],
    d: &[char],
    e: &str,
    f: &str,
    bytes: bool,
    chars: bool,
    texts: bool,
)
    requires
        call_ensures(same_bytes, (a, b), bytes),
        call_ensures(same_chars, (c, d), chars),
        call_ensures(same_text, (e, f), texts),
    ensures
        bytes <==> a@.len() == b@.len() && forall|i: int|
            0 <= i < a@.len() ==> #[trigger] a@[i] == b@[i],
        chars <==> c@.len() == d@.len() && forall|i: int|
            0 <= i < c@.len() ==> #[trigger] c@[i] == d@[i],
        texts <==> e@.len() == f@.len() && forall|i: int|
            0 <= i < e@.len() ==> #[trigger] e@[i] == f@[i],
{
    if a@.len() == b@.len() && forall|i: int| 0 <= i < a@.len() ==> #[trigger] a@[i] == b@[i] {
        assert(a@ =~= b@);
    }
    if c@.len() == d@.len() && forall|i: int| 0 <= i < c@.len() ==> #[trigger] c@[i] == d@[i] {
        assert(c@ =~= d@);
    }
    if e@.len() == f@.len() && forall|i: int| 0 <= i < e@.len() ==> #[trigger] e@[i] == f@[i] {
        assert(e@ =~= f@);
    }
}

/// A long number is written as a short one is, digit by digit.
pub proof fn law_long_decimal_is_written_digit_by_digit(tens: u128, last: u128, n: u128, m: u64)
    requires
        n == 10 * tens + last,
        last < 10,
    ensures
        forall|a: &mut String, b: &mut String|
            #[trigger] call_ensures(push_decimal_u128, (a, tens), ()) && #[trigger] call_ensures(
                push_decimal_u128,
                (b, n),
                (),
            ) && a@ == b@ ==> {
                &&& tens > 0 ==> final(b)@.drop_last() == final(a)@
                &&& tens == 0 ==> final(b)@.drop_last() == b@
                &&& final(b)@.len() > 0
                &&& final(b)@.last() as int == 48 + last
            },
        forall|a: &mut String, b: &mut String|
            #[trigger] call_ensures(push_decimal, (a, m), ()) && #[trigger] call_ensures(
                push_decimal_u128,
                (b, m as u128),
                (),
            ) && a@ == b@ ==> final(b)@ == final(a)@,
{
    assert forall|a: &mut String, b: &mut String|
        #[trigger] call_ensures(push_decimal_u128, (a, tens), ()) && #[trigger] call_ensures(
            push_decimal_u128,
            (b, n),
            (),
        ) && a@ == b@ implies {
        &&& tens > 0 ==> final(b)@.drop_last() == final(a)@
        &&& tens == 0 ==> final(b)@.drop_last() == b@
        &&& final(b)@.len() > 0
        &&& final(b)@.last() as int == 48 + last
    } by {
        lemma_decimal(n as nat);
        if tens > 0 {
            assert(final(b)@.drop_last() =~= final(a)@);
        } else {
            assert(final(b)@.drop_last() =~= b@);
        }
    }
}

} // verus!
