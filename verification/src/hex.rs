//! Lower-case hexadecimal text.

use vstd::prelude::*;

verus! {

/// The lower-case hexadecimal digit of a value below sixteen.
pub open spec fn hex_digit(value: int) -> char {
    if value < 10 {
        (48 + value) as char
    } else {
        (87 + value) as char
    }
}

/// Whether a character is a lower-case hexadecimal digit.
pub open spec fn is_hex_digit(c: char) -> bool {
    '0' <= c && c <= '9' || 'a' <= c && c <= 'f'
}

/// Whether every character is a hexadecimal digit.
pub open spec fn is_hex_text(s: Seq<char>) -> bool {
    forall|i: int| 0 <= i < s.len() ==> is_hex_digit(#[trigger] s[i])
}

/// Two digits for every byte, the high one first.
pub open spec fn hex(bytes: Seq<u8>) -> Seq<char> {
    Seq::new(
        2 * bytes.len(),
        |i: int|
            if i % 2 == 0 {
                hex_digit(bytes[i / 2] as int / 16)
            } else {
                hex_digit(bytes[i / 2] as int % 16)
            },
    )
}

/// Hexadecimal text determines its bytes, and holds only hexadecimal digits.
pub proof fn law_hex_is_injective(a: Seq<u8>, b: Seq<u8>)
    ensures
        hex(a) == hex(b) ==> a == b,
        hex(a).len() == 2 * a.len(),
        forall|i: int| 0 <= i < hex(a).len() ==> is_hex_digit(#[trigger] hex(a)[i]),
{
    if hex(a) == hex(b) {
        assert(hex(a).len() == hex(b).len());
        assert forall|i: int| 0 <= i < a.len() implies a[i] == b[i] by {
            assert(hex(a)[2 * i] == hex(b)[2 * i]);
            assert(hex(a)[2 * i + 1] == hex(b)[2 * i + 1]);
            assert((2 * i) / 2 == i && (2 * i) % 2 == 0);
            assert((2 * i + 1) / 2 == i && (2 * i + 1) % 2 == 1);
        }
        assert(a =~= b);
    }
}

fn hex_char(value: u8) -> (r: char)
    requires
        value < 16,
    ensures
        r == hex_digit(value as int),
{
    if value < 10 {
        (48 + value) as char
    } else {
        (87 + value) as char
    }
}

/// Append the hexadecimal form of some bytes.
pub fn push_hex(out: &mut String, bytes: &[u8])
    ensures
        final(out)@ == old(out)@ + hex(bytes@),
{
    let mut i: usize = 0;
    proof {
        assert(hex(bytes@.take(0)) =~= Seq::<char>::empty());
    }
    while i < bytes.len()
        invariant
            i <= bytes.len(),
            out@ == old(out)@ + hex(bytes@.take(i as int)),
        decreases bytes.len() - i,
    {
        let ghost before = out@;
        out.push(hex_char(bytes[i] / 16));
        out.push(hex_char(bytes[i] % 16));
        proof {
            let pair = seq![
                hex_digit(bytes@[i as int] as int / 16),
                hex_digit(bytes@[i as int] as int % 16),
            ];
            let short = hex(bytes@.take(i as int));
            let long = hex(bytes@.take(i + 1));
            assert forall|k: int| 0 <= k < long.len() implies long[k] == (short + pair)[k] by {
                if k < short.len() {
                    assert(bytes@.take(i + 1)[k / 2] == bytes@.take(i as int)[k / 2]);
                }
            }
            assert(long =~= short + pair);
            assert(out@ =~= before + pair);
            assert(out@ =~= old(out)@ + long);
        }
        i = i + 1;
    }
    proof {
        assert(bytes@.take(i as int) =~= bytes@);
    }
}

/// Whether every character is a lower-case hexadecimal digit.
pub fn check_hex(s: &[char]) -> (r: bool)
    ensures
        r == (forall|i: int| 0 <= i < s@.len() ==> is_hex_digit(#[trigger] s@[i])),
        r == is_hex_text(s@),
{
    let mut i: usize = 0;
    while i < s.len()
        invariant
            i <= s.len(),
            forall|j: int| 0 <= j < i ==> is_hex_digit(#[trigger] s@[j]),
        decreases s.len() - i,
    {
        let c = s[i];
        if !(c >= '0' && c <= '9' || c >= 'a' && c <= 'f') {
            assert(!is_hex_digit(s@[i as int]));
            return false;
        }
        i = i + 1;
    }
    true
}

/// The value of a lower-case hexadecimal digit.
fn digit_value(c: char) -> (r: u8)
    requires
        is_hex_digit(c),
    ensures
        r < 16,
        hex_digit(r as int) == c,
{
    if c <= '9' {
        (c as u32 - 48) as u8
    } else {
        (c as u32 - 87) as u8
    }
}

/// The value of a digit, as the text that holds it gives it.
spec fn value_of(c: char) -> int {
    if c <= '9' {
        c as int - 48
    } else {
        c as int - 87
    }
}

/// Every text of an even number of digits stands for bytes.
pub proof fn lemma_hex_covers(s: Seq<char>)
    requires
        s.len() % 2 == 0,
        forall|i: int| 0 <= i < s.len() ==> is_hex_digit(#[trigger] s[i]),
    ensures
        exists|bytes: Seq<u8>| #[trigger] hex(bytes) == s,
{
    let bytes = Seq::new(
        s.len() / 2,
        |i: int| (value_of(s[2 * i]) * 16 + value_of(s[2 * i + 1])) as u8,
    );
    assert forall|j: int| 0 <= j < s.len() implies hex(bytes)[j] == s[j] by {
        let i = j / 2;
        assert(is_hex_digit(s[2 * i]) && is_hex_digit(s[2 * i + 1]));
        assert(bytes[i] == value_of(s[2 * i]) * 16 + value_of(s[2 * i + 1]));
        assert(j == 2 * i || j == 2 * i + 1);
    }
    assert(hex(bytes) =~= s);
}

/// Whether a text is the hexadecimal form of no bytes.
pub open spec fn lacks_bytes(s: Seq<char>) -> bool {
    forall|bytes: Seq<u8>| #[trigger] hex(bytes) != s
}

/// Read bytes from lower-case hexadecimal text.
pub fn parse_hex(s: &[char]) -> (r: Option<Vec<u8>>)
    ensures
        match r {
            Some(bytes) => hex(bytes@) == s@,
            None => lacks_bytes(s@),
        },
{
    if s.len() % 2 != 0 || !check_hex(s) {
        proof {
            assert forall|bytes: Seq<u8>| #[trigger] hex(bytes) != s@ by {
                law_hex_is_injective(bytes, bytes);
            }
        }
        return None;
    }
    let mut bytes: Vec<u8> = Vec::new();
    let mut i: usize = 0;
    while i < s.len()
        invariant
            i <= s.len(),
            s.len() % 2 == 0,
            i % 2 == 0,
            bytes@.len() == i / 2,
            forall|j: int| 0 <= j < s@.len() ==> is_hex_digit(#[trigger] s@[j]),
            forall|j: int| 0 <= j < i ==> hex(bytes@)[j] == #[trigger] s@[j],
        decreases s.len() - i,
    {
        assert(is_hex_digit(s@[i as int]) && is_hex_digit(s@[i + 1]));
        let high: u8 = digit_value(s[i]);
        let low: u8 = digit_value(s[i + 1]);
        let ghost before = bytes@;
        bytes.push(high * 16 + low);
        proof {
            assert forall|j: int| 0 <= j < i + 2 implies hex(bytes@)[j] == #[trigger] s@[j] by {
                if j < i {
                    assert(hex(before)[j] == s@[j]);
                    assert(bytes@[j / 2] == before[j / 2]);
                } else {
                    assert(j / 2 == i / 2);
                    assert(bytes@[j / 2] == high * 16 + low);
                }
            }
        }
        i = i + 2;
    }
    assert(hex(bytes@) =~= s@);
    Some(bytes)
}

/// What a hexadecimal digit counts.
pub open spec fn counts(c: char, value: int) -> bool {
    ||| 48 <= (c as int) <= 57 && value == (c as int) - 48
    ||| 97 <= (c as int) <= 102 && value == (c as int) - 87
}

/// Each byte is appended as two digits, of which the first counts sixteen times.
pub proof fn law_byte_becomes_two_digits(bytes: &[u8], i: int)
    requires
        0 <= i < bytes@.len(),
    ensures
        forall|out: &mut String|
            #[trigger] call_ensures(push_hex, (out, bytes), ()) ==> {
                let before = out@.len() as int;
                &&& final(out)@.len() == before + 2 * bytes@.len()
                &&& final(out)@.take(before) == out@
                &&& exists|high: int, low: int|
                    {
                        &&& #[trigger] counts(final(out)@[before + 2 * i], high)
                        &&& #[trigger] counts(final(out)@[before + 2 * i + 1], low)
                        &&& bytes@[i] == 16 * high + low
                    }
            },
{
    assert forall|out: &mut String| #[trigger] call_ensures(push_hex, (out, bytes), ()) implies {
        let before = out@.len() as int;
        &&& final(out)@.len() == before + 2 * bytes@.len()
        &&& final(out)@.take(before) == out@
        &&& exists|high: int, low: int|
            {
                &&& #[trigger] counts(final(out)@[before + 2 * i], high)
                &&& #[trigger] counts(final(out)@[before + 2 * i + 1], low)
                &&& bytes@[i] == 16 * high + low
            }
    } by {
        let before = out@.len() as int;
        let h = hex(bytes@);
        assert(final(out)@.take(before) =~= out@);
        assert(final(out)@[before + 2 * i] == h[2 * i]);
        assert(final(out)@[before + 2 * i + 1] == h[2 * i + 1]);
        assert((2 * i) / 2 == i && (2 * i) % 2 == 0);
        assert((2 * i + 1) / 2 == i && (2 * i + 1) % 2 == 1);
        assert(counts(h[2 * i], bytes@[i] as int / 16));
        assert(counts(h[2 * i + 1], bytes@[i] as int % 16));
    }
}

/// Text is read as bytes exactly where it has an even number of characters, all of them
/// lower-case hexadecimal digits; and a byte is what its two digits count.
pub proof fn law_two_digits_become_a_byte(s: &[char], r: Option<Vec<u8>>, i: int, high: int, low: int)
    requires
        call_ensures(parse_hex, (s,), r),
    ensures
        r is Some <==> s@.len() % 2 == 0 && forall|k: int|
            0 <= k < s@.len() ==> 48 <= (#[trigger] s@[k] as int) <= 57 || 97 <= (s@[k] as int)
                <= 102,
        r matches Some(bytes) ==> 2 * bytes@.len() == s@.len(),
        r matches Some(bytes) ==> (0 <= i < bytes@.len() && counts(s@[2 * i], high) && counts(
            s@[2 * i + 1],
            low,
        ) ==> bytes@[i] == 16 * high + low),
{
    if let Some(bytes) = r {
        law_hex_is_injective(bytes@, bytes@);
        assert forall|k: int| 0 <= k < s@.len() implies 48 <= (#[trigger] s@[k] as int) <= 57 || 97
            <= (s@[k] as int) <= 102 by {
            assert(is_hex_digit(hex(bytes@)[k]));
        }
        if 0 <= i < bytes@.len() {
            assert((2 * i) / 2 == i && (2 * i) % 2 == 0);
            assert((2 * i + 1) / 2 == i && (2 * i + 1) % 2 == 1);
            assert(s@[2 * i] == hex_digit(bytes@[i] as int / 16));
            assert(s@[2 * i + 1] == hex_digit(bytes@[i] as int % 16));
        }
    } else if s@.len() % 2 == 0 && forall|k: int|
        0 <= k < s@.len() ==> 48 <= (#[trigger] s@[k] as int) <= 57 || 97 <= (s@[k] as int) <= 102 {
        assert forall|k: int| 0 <= k < s@.len() implies is_hex_digit(#[trigger] s@[k]) by {
            assert(48 <= (s@[k] as int) <= 57 || 97 <= (s@[k] as int) <= 102);
        }
        lemma_hex_covers(s@);
        let bytes = choose|bytes: Seq<u8>| #[trigger] hex(bytes) == s@;
        assert(lacks_bytes(s@));
    }
}

/// Hexadecimal text is made of the ten digits and six lower case letters alone.
pub proof fn law_hex_has_sixteen_digits(s: &[char], r: bool)
    requires
        call_ensures(check_hex, (s,), r),
    ensures
        r <==> forall|i: int|
            0 <= i < s@.len() ==> 48 <= (#[trigger] s@[i]) as int <= 57 || 97 <= s@[i] as int <= 102,
{
    if r {
        assert forall|i: int| 0 <= i < s@.len() implies 48 <= (#[trigger] s@[i]) as int <= 57 || 97
            <= s@[i] as int <= 102 by {
            assert(is_hex_digit(s@[i]));
        }
    } else {
        let i = choose|i: int| 0 <= i < s@.len() && !is_hex_digit(#[trigger] s@[i]);
        assert(!(48 <= s@[i] as int <= 57 || 97 <= s@[i] as int <= 102));
    }
}

} // verus!
