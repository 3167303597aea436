//! Names of captured artifacts: the generated file-name grammar, the nonce that
//! tells capture sessions apart, and the idempotency key of an upload.

use vstd::prelude::*;

use crate::hex;
use crate::random;
use crate::random::draw;
use crate::text;
use crate::text::{
    check_digits, chars_of, is_canonical_decimal, is_canonical_padded, parse_digits, push_decimal,
    push_padded, same_chars, split_at_each,
};

verus! {

broadcast use vstd::string::group_string_axioms;

pub const CAPTURE_SESSION_NONCE_BYTES: usize = 16;

pub const IDEMPOTENCY_PREFIX: &'static str = "autopiercam-sha256-";

/// The operating system refused to provide random bytes.
#[derive(Debug)]
pub struct NonceError {
    pub source: getrandom::Error,
}

/// Tells the artifacts of one capture session from those of every other.
#[derive(Clone, Copy, Debug, PartialEq, Eq)]
pub struct CaptureSessionNonce(pub [u8; 16]);

impl CaptureSessionNonce {
    /// A fresh nonce from the operating system's random source.
    pub fn random() -> (r: Result<Self, NonceError>)
        ensures
            exists|source: Result<[u8; 16], getrandom::Error>| #[trigger]
                random::drawn(source) && r == Self::stands_for(source),
    {
        Self::from_source(draw::<16>())
    }

    /// The nonce that a random source's answer stands for.
    pub open spec fn stands_for(source: Result<[u8; 16], getrandom::Error>) -> Result<
        Self,
        NonceError,
    > {
        match source {
            Ok(bytes) => Ok(CaptureSessionNonce(bytes)),
            Err(error) => Err(NonceError { source: error }),
        }
    }

    /// The nonce that a random source's answer stands for.
    pub fn from_source(source: Result<[u8; 16], getrandom::Error>) -> (r: Result<Self, NonceError>)
        ensures
            r == Self::stands_for(source),
    {
        match source {
            Ok(bytes) => Ok(CaptureSessionNonce(bytes)),
            Err(source) => Err(NonceError { source }),
        }
    }

    /// Thirty-two lower-case hexadecimal digits.
    pub fn hex(self) -> (r: String)
        ensures
            r@ == hex::hex(self.0@),
    {
        let mut value = String::new();
        hex::push_hex(&mut value, self.0.as_slice());
        assert(value@ =~= hex::hex(self.0@));
        value
    }
}

/// The stem of a name without a session nonce.
pub open spec fn frame_stem(seconds: nat, millis: nat, sequence: nat) -> Seq<char> {
    text::joined(
        seq![
            "frame"@,
            text::decimal(seconds),
            text::padded(millis, 3),
            text::padded(sequence, 6),
        ],
        '-',
    )
}

/// The stem of a name with a session nonce.
pub open spec fn capture_stem(
    seconds: nat,
    millis: nat,
    nonce: Seq<char>,
    sequence: nat,
) -> Seq<char> {
    text::joined(
        seq![
            "frame"@,
            text::decimal(seconds),
            text::padded(millis, 3),
            nonce,
            text::padded(sequence, 6),
        ],
        '-',
    )
}

/// Whether a name is a stem with a JPEG extension.
pub open spec fn is_jpeg_name(name: Seq<char>, stem: Seq<char>) -> bool {
    name == stem + ".jpg"@ || name == stem + ".jpeg"@
}

/// Whether a capture time and sequence number can be represented.
pub open spec fn representable(seconds: nat, millis: nat, sequence: nat) -> bool {
    &&& millis < 1_000
    &&& sequence <= u64::MAX
    &&& seconds * 1_000 + millis <= u64::MAX
}

/// Whether a name is the generated name of this frame.
pub open spec fn names_frame(name: Seq<char>, seconds: nat, millis: nat, sequence: nat) -> bool {
    representable(seconds, millis, sequence) && is_jpeg_name(
        name,
        frame_stem(seconds, millis, sequence),
    )
}

/// Whether some characters are the digits of a session nonce.
pub open spec fn is_nonce_text(nonce: Seq<char>) -> bool {
    nonce.len() == 32 && forall|i: int| 0 <= i < nonce.len() ==> hex::is_hex_digit(#[trigger] nonce[i])
}

/// Whether a name is the generated name of this frame of a capture session.
pub open spec fn names_capture(
    name: Seq<char>,
    seconds: nat,
    millis: nat,
    nonce: Seq<char>,
    sequence: nat,
) -> bool {
    representable(seconds, millis, sequence) && is_nonce_text(nonce) && is_jpeg_name(
        name,
        capture_stem(seconds, millis, nonce, sequence),
    )
}

/// The file name of a still: capture time, session nonce and sequence number.
pub open spec fn capture_name(
    seconds: nat,
    millis: nat,
    nonce: Seq<u8>,
    sequence: nat,
) -> Seq<char> {
    capture_stem(seconds, millis, hex::hex(nonce), sequence) + ".jpg"@
}

proof fn lemma_joined_five(a: Seq<char>, b: Seq<char>, c: Seq<char>, d: Seq<char>, e: Seq<char>)
    ensures
        text::joined(seq![a, b, c, d, e], '-') == a + seq!['-'] + b + seq!['-'] + c + seq!['-'] + d
            + seq!['-'] + e,
{
    reveal_with_fuel(text::joined, 5);
    let parts = seq![a, b, c, d, e];
    assert(parts.drop_last() =~= seq![a, b, c, d]);
    assert(parts.drop_last().drop_last() =~= seq![a, b, c]);
    assert(parts.drop_last().drop_last().drop_last() =~= seq![a, b]);
    assert(parts.drop_last().drop_last().drop_last().drop_last() =~= seq![a]);
    assert(text::joined(parts, '-') =~= a + seq!['-'] + b + seq!['-'] + c + seq!['-'] + d
        + seq!['-'] + e);
}

fn push_capture_stem(
    name: &mut String,
    seconds: u64,
    millis: u64,
    session_nonce: CaptureSessionNonce,
    sequence: u64,
)
    ensures
        final(name)@ == old(name)@ + capture_stem(
            seconds as nat,
            millis as nat,
            hex::hex(session_nonce.0@),
            sequence as nat,
        ),
{
    name.append("frame");
    name.push('-');
    push_decimal(name, seconds);
    name.push('-');
    push_padded(name, millis, 3);
    name.push('-');
    hex::push_hex(name, session_nonce.0.as_slice());
    name.push('-');
    push_padded(name, sequence, 6);
    proof {
        lemma_joined_five(
            "frame"@,
            text::decimal(seconds as nat),
            text::padded(millis as nat, 3),
            hex::hex(session_nonce.0@),
            text::padded(sequence as nat, 6),
        );
        assert(name@ =~= old(name)@ + capture_stem(
            seconds as nat,
            millis as nat,
            hex::hex(session_nonce.0@),
            sequence as nat,
        ));
    }
}

/// Name a still captured at this time since the Unix epoch.
pub fn capture_filename_at(
    captured_at_seconds: u64,
    captured_at_subsec_nanos: u32,
    session_nonce: CaptureSessionNonce,
    sequence: u64,
) -> (r: String)
    requires
        captured_at_subsec_nanos < 1_000_000_000,
    ensures
        r@ == capture_name(
            captured_at_seconds as nat,
            (captured_at_subsec_nanos / 1_000_000) as nat,
            session_nonce.0@,
            sequence as nat,
        ),
{
    let millis: u64 = (captured_at_subsec_nanos / 1_000_000) as u64;
    let mut name = String::new();
    push_capture_stem(&mut name, captured_at_seconds, millis, session_nonce, sequence);
    name.append(".jpg");
    proof {
        assert(name@ =~= capture_name(
            captured_at_seconds as nat,
            millis as nat,
            session_nonce.0@,
            sequence as nat,
        ));
    }
    name
}

/// Name an artifact that carries another extension than a still.
pub fn capture_filename_with_extension(
    captured_at_seconds: u64,
    captured_at_subsec_nanos: u32,
    session_nonce: CaptureSessionNonce,
    sequence: u64,
    extension: &str,
) -> (r: String)
    requires
        captured_at_subsec_nanos < 1_000_000_000,
    ensures
        r@ == capture_stem(
            captured_at_seconds as nat,
            (captured_at_subsec_nanos / 1_000_000) as nat,
            hex::hex(session_nonce.0@),
            sequence as nat,
        ) + seq!['.'] + extension@,
{
    let millis: u64 = (captured_at_subsec_nanos / 1_000_000) as u64;
    let mut name = String::new();
    push_capture_stem(&mut name, captured_at_seconds, millis, session_nonce, sequence);
    name.push('.');
    name.append(extension);
    proof {
        let stem = capture_stem(
            captured_at_seconds as nat,
            millis as nat,
            hex::hex(session_nonce.0@),
            sequence as nat,
        );
        assert(name@ =~= stem + seq!['.'] + extension@);
    }
    name
}

proof fn lemma_suffixes(a: Seq<char>, b: Seq<char>)
    ensures
        ".jpg"@.len() == 4,
        ".jpeg"@.len() == 5,
        a + ".jpg"@ != b + ".jpeg"@,
        a + ".jpg"@ == b + ".jpg"@ ==> a == b,
        a + ".jpeg"@ == b + ".jpeg"@ ==> a == b,
{
    reveal_strlit(".jpg");
    reveal_strlit(".jpeg");
    let short = a + ".jpg"@;
    let long = b + ".jpeg"@;
    if short == long {
        assert(short[short.len() - 2] == 'p');
        assert(long[long.len() - 2] == 'e');
    }
    if a + ".jpg"@ == b + ".jpg"@ {
        assert((a + ".jpg"@).take(a.len() as int) =~= a);
        assert((b + ".jpg"@).take(b.len() as int) =~= b);
        assert((a + ".jpg"@).len() == (b + ".jpg"@).len());
    }
    if a + ".jpeg"@ == b + ".jpeg"@ {
        assert((a + ".jpeg"@).take(a.len() as int) =~= a);
        assert((b + ".jpeg"@).take(b.len() as int) =~= b);
        assert((a + ".jpeg"@).len() == (b + ".jpeg"@).len());
    }
}

/// A name without its JPEG extension.
fn strip_jpeg_extension(name: &[char]) -> (r: Option<Vec<char>>)
    ensures
        match r {
            Some(stem) => is_jpeg_name(name@, stem@),
            None => forall|stem: Seq<char>| !is_jpeg_name(name@, stem),
        },
{
    proof {
        lemma_suffixes(Seq::empty(), Seq::empty());
    }
    let long = chars_of(".jpeg");
    let short = chars_of(".jpg");
    if name.len() >= 4 {
        let (stem, suffix) = name.split_at(name.len() - 4);
        if same_chars(suffix, short.as_slice()) {
            assert(name@ =~= stem@ + ".jpg"@);
            return Some(slice_to_vec(stem));
        }
    }
    if name.len() >= 5 {
        let (stem, suffix) = name.split_at(name.len() - 5);
        if same_chars(suffix, long.as_slice()) {
            assert(name@ =~= stem@ + ".jpeg"@);
            return Some(slice_to_vec(stem));
        }
    }
    proof {
        assert forall|stem: Seq<char>| !is_jpeg_name(name@, stem) by {
            if name@ == stem + ".jpg"@ {
                assert(name@.skip(name@.len() - 4) =~= ".jpg"@);
                assert(name@.subrange(name@.len() - 4, name@.len() as int) =~= ".jpg"@);
            }
            if name@ == stem + ".jpeg"@ {
                assert(name@.subrange(name@.len() - 5, name@.len() as int) =~= ".jpeg"@);
            }
        }
    }
    None
}

/// The characters of a slice in a vector of their own.
fn slice_to_vec(chars: &[char]) -> (r: Vec<char>)
    ensures
        r@ == chars@,
{
    let mut r: Vec<char> = Vec::new();
    let mut i: usize = 0;
    while i < chars.len()
        invariant
            i <= chars.len(),
            r@ == chars@.take(i as int),
        decreases chars.len() - i,
    {
        r.push(chars[i]);
        i = i + 1;
    }
    assert(chars@.take(i as int) =~= chars@);
    r
}

/// Whether three parts spell this time and sequence number.
pub open spec fn time_parts(
    seconds_text: Seq<char>,
    millis_text: Seq<char>,
    sequence_text: Seq<char>,
    seconds: nat,
    millis: nat,
    sequence: nat,
) -> bool {
    &&& representable(seconds, millis, sequence)
    &&& seconds_text == text::decimal(seconds)
    &&& millis_text == text::padded(millis, 3)
    &&& sequence_text == text::padded(sequence, 6)
}

/// Read the capture time from the three numeric parts of a generated name.
fn parse_time_parts(seconds: &[char], millis: &[char], sequence: &[char]) -> (r: Option<u64>)
    ensures
        match r {
            Some(at_ms) => exists|s: nat, m: nat, q: nat|
                #[trigger] time_parts(seconds@, millis@, sequence@, s, m, q) && at_ms == s * 1_000
                    + m,
            None => forall|s: nat, m: nat, q: nat|
                !(#[trigger] time_parts(seconds@, millis@, sequence@, s, m, q)),
        },
{
    let ghost sv = text::decimal_value(seconds@);
    let ghost mv = text::decimal_value(millis@);
    let ghost qv = text::decimal_value(sequence@);
    proof {
        assert forall|s: nat, m: nat, q: nat|
            #[trigger] time_parts(seconds@, millis@, sequence@, s, m, q) implies {
            &&& seconds@.len() >= 1
            &&& text::all_digits(seconds@)
            &&& millis@.len() == 3
            &&& text::all_digits(millis@)
            &&& sequence@.len() >= 6
            &&& text::all_digits(sequence@)
            &&& s == sv
            &&& m == mv
            &&& q == qv
        } by {
            text::lemma_decimal(s);
            text::lemma_padded(m, 3);
            text::lemma_three_digits(m);
            text::lemma_padded(q, 6);
        }
    }
    if seconds.len() == 0 || !check_digits(seconds) || millis.len() != 3 || !check_digits(millis)
        || sequence.len() < 6 || !check_digits(sequence) {
        return None;
    }
    proof {
        text::lemma_three_digit_value(millis@);
        text::lemma_canonical_padded(millis@, 3);
    }
    if !is_canonical_decimal(seconds) || !is_canonical_padded(sequence, 6) {
        return None;
    }
    match (parse_digits(seconds), parse_digits(millis), parse_digits(sequence)) {
        (Some(s), Some(m), Some(q)) => match s.checked_mul(1_000) {
            Some(ms) => match ms.checked_add(m) {
                Some(at_ms) => {
                    assert(time_parts(seconds@, millis@, sequence@, sv, mv, qv));
                    Some(at_ms)
                },
                None => None,
            },
            None => None,
        },
        _ => None,
    }
}

proof fn lemma_digits_are_plain(s: Seq<char>)
    requires
        text::all_digits(s),
    ensures
        !s.contains('-'),
{
    assert forall|i: int| 0 <= i < s.len() implies s[i] != '-' by {
        assert(text::is_digit(s[i]));
    }
}

proof fn lemma_frame_parts(seconds: nat, millis: nat, sequence: nat)
    ensures
        text::separator_free(
            seq![
                "frame"@,
                text::decimal(seconds),
                text::padded(millis, 3),
                text::padded(sequence, 6),
            ],
            '-',
        ),
{
    reveal_strlit("frame");
    text::lemma_decimal(seconds);
    text::lemma_padded(millis, 3);
    text::lemma_padded(sequence, 6);
    lemma_digits_are_plain(text::decimal(seconds));
    lemma_digits_are_plain(text::padded(millis, 3));
    lemma_digits_are_plain(text::padded(sequence, 6));
}

proof fn lemma_capture_parts(seconds: nat, millis: nat, nonce: Seq<char>, sequence: nat)
    requires
        is_nonce_text(nonce),
    ensures
        text::separator_free(
            seq![
                "frame"@,
                text::decimal(seconds),
                text::padded(millis, 3),
                nonce,
                text::padded(sequence, 6),
            ],
            '-',
        ),
{
    reveal_strlit("frame");
    text::lemma_decimal(seconds);
    text::lemma_padded(millis, 3);
    text::lemma_padded(sequence, 6);
    lemma_digits_are_plain(text::decimal(seconds));
    lemma_digits_are_plain(text::padded(millis, 3));
    lemma_digits_are_plain(text::padded(sequence, 6));
    assert forall|i: int| 0 <= i < nonce.len() implies nonce[i] != '-' by {
        assert(hex::is_hex_digit(nonce[i]));
    }
}

/// The dash-separated parts of a name's stem.
fn stem_parts(filename: &str) -> (r: Option<Vec<Vec<char>>>)
    ensures
        match r {
            Some(parts) => {
                &&& parts@.len() >= 1
                &&& text::separator_free(text::part_views(parts@), '-')
                &&& is_jpeg_name(filename@, text::joined(text::part_views(parts@), '-'))
            },
            None => forall|stem: Seq<char>| !is_jpeg_name(filename@, stem),
        },
{
    let name = chars_of(filename);
    match strip_jpeg_extension(name.as_slice()) {
        Some(stem) => Some(split_at_each(stem.as_slice(), '-')),
        None => None,
    }
}

proof fn lemma_same_stem(name: Seq<char>, a: Seq<char>, b: Seq<char>)
    requires
        is_jpeg_name(name, a),
        is_jpeg_name(name, b),
    ensures
        a == b,
{
    lemma_suffixes(a, b);
    lemma_suffixes(b, a);
}

/// Whether a name is that of some frame without a nonce.
pub open spec fn is_frame_name(name: Seq<char>) -> bool {
    exists|s: nat, m: nat, q: nat| #[trigger] names_frame(name, s, m, q)
}

/// Whether a name is that of no frame without a nonce.
pub open spec fn names_no_frame(name: Seq<char>) -> bool {
    forall|s: nat, m: nat, q: nat| !(#[trigger] names_frame(name, s, m, q))
}

/// Whether a name is generated for no time.
pub open spec fn names_no_time(name: Seq<char>) -> bool {
    forall|at_ms: nat| !(#[trigger] names_generated_at(name, at_ms))
}

/// The capture time, in milliseconds since the Unix epoch, of a generated name
/// without a session nonce.
pub fn parse_generated_frame_filename(filename: &str) -> (r: Option<u64>)
    ensures
        match r {
            Some(at_ms) => exists|s: nat, m: nat, q: nat|
                #[trigger] names_frame(filename@, s, m, q) && at_ms == s * 1_000 + m,
            None => forall|s: nat, m: nat, q: nat| !(#[trigger] names_frame(filename@, s, m, q)),
        },
        r is None ==> names_no_frame(filename@),
{
    match stem_parts(filename) {
        Some(parts) => parse_frame_parts(filename, &parts),
        None => None,
    }
}

fn parse_frame_parts(filename: &str, parts: &Vec<Vec<char>>) -> (r: Option<u64>)
    requires
        parts@.len() >= 1,
        text::separator_free(text::part_views(parts@), '-'),
        is_jpeg_name(filename@, text::joined(text::part_views(parts@), '-')),
    ensures
        match r {
            Some(at_ms) => exists|s: nat, m: nat, q: nat|
                #[trigger] names_frame(filename@, s, m, q) && at_ms == s * 1_000 + m,
            None => forall|s: nat, m: nat, q: nat| !(#[trigger] names_frame(filename@, s, m, q)),
        },
{
    let ghost views = text::part_views(parts@);
    proof {
        assert forall|s: nat, m: nat, q: nat| #[trigger]
            names_frame(filename@, s, m, q) implies views == seq![
            "frame"@,
            text::decimal(s),
            text::padded(m, 3),
            text::padded(q, 6),
        ] by {
            lemma_frame_parts(s, m, q);
            lemma_same_stem(filename@, text::joined(views, '-'), frame_stem(s, m, q));
            text::lemma_joined_unique(
                views,
                seq!["frame"@, text::decimal(s), text::padded(m, 3), text::padded(q, 6)],
                '-',
            );
        }
    }
    let frame = chars_of("frame");
    if parts.len() != 4 || !same_chars(parts[0].as_slice(), frame.as_slice()) {
        proof {
            assert forall|s: nat, m: nat, q: nat| !(#[trigger] names_frame(filename@, s, m, q)) by {
                if names_frame(filename@, s, m, q) {
                    assert(views[0] == "frame"@);
                    assert(views[0] == parts@[0]@);
                }
            }
        }
        return None;
    }
    let r = parse_time_parts(parts[1].as_slice(), parts[2].as_slice(), parts[3].as_slice());
    proof {
        assert(views[0] == parts@[0]@ && views[1] == parts@[1]@ && views[2] == parts@[2]@
            && views[3] == parts@[3]@);
        match r {
            Some(at_ms) => {
                let (s, m, q) = choose|s: nat, m: nat, q: nat|
                    #[trigger] time_parts(parts@[1]@, parts@[2]@, parts@[3]@, s, m, q) && at_ms == s
                        * 1_000 + m;
                assert(views =~= seq![
                    "frame"@,
                    text::decimal(s),
                    text::padded(m, 3),
                    text::padded(q, 6),
                ]);
                assert(names_frame(filename@, s, m, q));
            },
            None => {
                assert forall|s: nat, m: nat, q: nat| !(#[trigger] names_frame(
                    filename@,
                    s,
                    m,
                    q,
                )) by {
                    if names_frame(filename@, s, m, q) {
                        assert(time_parts(parts@[1]@, parts@[2]@, parts@[3]@, s, m, q));
                    }
                }
            },
        }
    }
    r
}

fn parse_capture_parts(filename: &str, parts: &Vec<Vec<char>>) -> (r: Option<u64>)
    requires
        parts@.len() >= 1,
        text::separator_free(text::part_views(parts@), '-'),
        is_jpeg_name(filename@, text::joined(text::part_views(parts@), '-')),
    ensures
        match r {
            Some(at_ms) => exists|s: nat, m: nat, n: Seq<char>, q: nat|
                #[trigger] names_capture(filename@, s, m, n, q) && at_ms == s * 1_000 + m,
            None => forall|s: nat, m: nat, n: Seq<char>, q: nat|
                !(#[trigger] names_capture(filename@, s, m, n, q)),
        },
{
    let ghost views = text::part_views(parts@);
    proof {
        assert forall|s: nat, m: nat, n: Seq<char>, q: nat| #[trigger]
            names_capture(filename@, s, m, n, q) implies views == seq![
            "frame"@,
            text::decimal(s),
            text::padded(m, 3),
            n,
            text::padded(q, 6),
        ] by {
            lemma_capture_parts(s, m, n, q);
            lemma_same_stem(filename@, text::joined(views, '-'), capture_stem(s, m, n, q));
            text::lemma_joined_unique(
                views,
                seq!["frame"@, text::decimal(s), text::padded(m, 3), n, text::padded(q, 6)],
                '-',
            );
        }
    }
    let frame = chars_of("frame");
    if parts.len() != 5 || !same_chars(parts[0].as_slice(), frame.as_slice()) || parts[3].len()
        != 32 || !hex::check_hex(parts[3].as_slice()) {
        proof {
            assert forall|s: nat, m: nat, n: Seq<char>, q: nat| !(#[trigger] names_capture(
                filename@,
                s,
                m,
                n,
                q,
            )) by {
                if names_capture(filename@, s, m, n, q) {
                    assert(views[0] == "frame"@);
                    assert(views[0] == parts@[0]@);
                    assert(views[3] == n);
                    assert(views[3] == parts@[3]@);
                }
            }
        }
        return None;
    }
    let r = parse_time_parts(parts[1].as_slice(), parts[2].as_slice(), parts[4].as_slice());
    proof {
        assert(views[0] == parts@[0]@ && views[1] == parts@[1]@ && views[2] == parts@[2]@
            && views[3] == parts@[3]@ && views[4] == parts@[4]@);
        let n = parts@[3]@;
        assert(is_nonce_text(n));
        match r {
            Some(at_ms) => {
                let (s, m, q) = choose|s: nat, m: nat, q: nat|
                    #[trigger] time_parts(parts@[1]@, parts@[2]@, parts@[4]@, s, m, q) && at_ms == s
                        * 1_000 + m;
                assert(views =~= seq![
                    "frame"@,
                    text::decimal(s),
                    text::padded(m, 3),
                    n,
                    text::padded(q, 6),
                ]);
                assert(names_capture(filename@, s, m, n, q));
            },
            None => {
                assert forall|s: nat, m: nat, n2: Seq<char>, q: nat| !(#[trigger] names_capture(
                    filename@,
                    s,
                    m,
                    n2,
                    q,
                )) by {
                    if names_capture(filename@, s, m, n2, q) {
                        assert(time_parts(parts@[1]@, parts@[2]@, parts@[4]@, s, m, q));
                    }
                }
            },
        }
    }
    r
}

/// Whether a name follows the grammar of generated frames without a nonce.
pub fn is_generated_frame_filename(filename: &str) -> (r: bool)
    ensures
        r == exists|s: nat, m: nat, q: nat| names_frame(filename@, s, m, q),
        r == is_frame_name(filename@),
{
    parse_generated_frame_filename(filename).is_some()
}

/// Whether a name is one that a capture writer generates for this time.
pub open spec fn names_generated_at(name: Seq<char>, at_ms: nat) -> bool {
    ||| exists|s: nat, m: nat, q: nat| #[trigger] names_frame(name, s, m, q) && at_ms == s * 1_000 + m
    ||| exists|s: nat, m: nat, n: Seq<char>, q: nat|
        #[trigger] names_capture(name, s, m, n, q) && at_ms == s * 1_000 + m
}

/// The capture time, in milliseconds since the Unix epoch, of a generated name
/// with or without a session nonce.
pub fn parse_generated_capture_filename(filename: &str) -> (r: Option<u64>)
    ensures
        match r {
            Some(at_ms) => names_generated_at(filename@, at_ms as nat),
            None => forall|at_ms: nat| !names_generated_at(filename@, at_ms),
        },
        r is None ==> names_no_time(filename@),
{
    match stem_parts(filename) {
        Some(parts) => match parse_frame_parts(filename, &parts) {
            Some(at_ms) => Some(at_ms),
            None => parse_capture_parts(filename, &parts),
        },
        None => None,
    }
}

/// A generated name without a nonce determines its time and sequence number.
pub proof fn law_frame_name_is_injective(
    s: nat,
    m: nat,
    q: nat,
    s2: nat,
    m2: nat,
    q2: nat,
    name: Seq<char>,
)
    requires
        names_frame(name, s, m, q),
        names_frame(name, s2, m2, q2),
    ensures
        s == s2,
        m == m2,
        q == q2,
{
    let a = seq!["frame"@, text::decimal(s), text::padded(m, 3), text::padded(q, 6)];
    let b = seq!["frame"@, text::decimal(s2), text::padded(m2, 3), text::padded(q2, 6)];
    lemma_same_stem(name, frame_stem(s, m, q), frame_stem(s2, m2, q2));
    lemma_frame_parts(s, m, q);
    lemma_frame_parts(s2, m2, q2);
    text::lemma_joined_unique(a, b, '-');
    assert(a[1] == b[1] && a[2] == b[2] && a[3] == b[3]);
    text::lemma_decimal(s);
    text::lemma_decimal(s2);
    text::lemma_padded(m, 3);
    text::lemma_padded(m2, 3);
    text::lemma_padded(q, 6);
    text::lemma_padded(q2, 6);
}

/// A generated name with a nonce determines its time, nonce and sequence number.
pub proof fn law_session_name_is_injective(
    s: nat,
    m: nat,
    n: Seq<char>,
    q: nat,
    s2: nat,
    m2: nat,
    n2: Seq<char>,
    q2: nat,
    name: Seq<char>,
)
    requires
        names_capture(name, s, m, n, q),
        names_capture(name, s2, m2, n2, q2),
    ensures
        s == s2,
        m == m2,
        n == n2,
        q == q2,
{
    let a = seq!["frame"@, text::decimal(s), text::padded(m, 3), n, text::padded(q, 6)];
    let b = seq!["frame"@, text::decimal(s2), text::padded(m2, 3), n2, text::padded(q2, 6)];
    lemma_same_stem(name, capture_stem(s, m, n, q), capture_stem(s2, m2, n2, q2));
    lemma_capture_parts(s, m, n, q);
    lemma_capture_parts(s2, m2, n2, q2);
    text::lemma_joined_unique(a, b, '-');
    assert(a[1] == b[1] && a[2] == b[2] && a[3] == b[3] && a[4] == b[4]);
    text::lemma_decimal(s);
    text::lemma_decimal(s2);
    text::lemma_padded(m, 3);
    text::lemma_padded(m2, 3);
    text::lemma_padded(q, 6);
    text::lemma_padded(q2, 6);
}

/// No name is generated both with and without a nonce.
pub proof fn law_grammars_are_disjoint(
    name: Seq<char>,
    s: nat,
    m: nat,
    q: nat,
    s2: nat,
    m2: nat,
    n2: Seq<char>,
    q2: nat,
)
    requires
        names_frame(name, s, m, q),
    ensures
        !names_capture(name, s2, m2, n2, q2),
{
    if names_capture(name, s2, m2, n2, q2) {
        let a = seq!["frame"@, text::decimal(s), text::padded(m, 3), text::padded(q, 6)];
        let b = seq!["frame"@, text::decimal(s2), text::padded(m2, 3), n2, text::padded(q2, 6)];
        lemma_same_stem(name, frame_stem(s, m, q), capture_stem(s2, m2, n2, q2));
        lemma_frame_parts(s, m, q);
        lemma_capture_parts(s2, m2, n2, q2);
        text::lemma_joined_unique(a, b, '-');
        assert(a.len() == 4 && b.len() == 5);
    }
}

proof fn lemma_nonce_text(nonce: Seq<u8>)
    requires
        nonce.len() == 16,
    ensures
        is_nonce_text(hex::hex(nonce)),
{
    hex::law_hex_is_injective(nonce, nonce);
}

/// What the capture writer names, the retention inventory recognises: the name
/// reads back as exactly its capture time, to the millisecond.
pub proof fn law_generated_name_reads_back(
    seconds: nat,
    millis: nat,
    nonce: Seq<u8>,
    sequence: nat,
    at_ms: nat,
)
    requires
        nonce.len() == 16,
        representable(seconds, millis, sequence),
    ensures
        names_generated_at(capture_name(seconds, millis, nonce, sequence), at_ms) <==> at_ms
            == seconds * 1_000 + millis,
{
    let name = capture_name(seconds, millis, nonce, sequence);
    let digits = hex::hex(nonce);
    lemma_nonce_text(nonce);
    assert(names_capture(name, seconds, millis, digits, sequence));
    if names_generated_at(name, at_ms) {
        if exists|s: nat, m: nat, q: nat| #[trigger]
            names_frame(name, s, m, q) && at_ms == s * 1_000 + m {
            let (s, m, q) = choose|s: nat, m: nat, q: nat| #[trigger]
                names_frame(name, s, m, q) && at_ms == s * 1_000 + m;
            law_grammars_are_disjoint(name, s, m, q, seconds, millis, digits, sequence);
        } else {
            let (s, m, n, q) = choose|s: nat, m: nat, n: Seq<char>, q: nat| #[trigger]
                names_capture(name, s, m, n, q) && at_ms == s * 1_000 + m;
            law_session_name_is_injective(
                s,
                m,
                n,
                q,
                seconds,
                millis,
                digits,
                sequence,
                name,
            );
        }
    }
}

/// Stills of different sessions, times or sequence numbers never share a name.
pub proof fn law_capture_names_differ(
    seconds: nat,
    millis: nat,
    nonce: Seq<u8>,
    sequence: nat,
    seconds2: nat,
    millis2: nat,
    nonce2: Seq<u8>,
    sequence2: nat,
)
    requires
        nonce.len() == 16,
        nonce2.len() == 16,
        millis < 1_000,
        millis2 < 1_000,
        capture_name(seconds, millis, nonce, sequence) == capture_name(
            seconds2,
            millis2,
            nonce2,
            sequence2,
        ),
    ensures
        seconds == seconds2,
        millis == millis2,
        nonce == nonce2,
        sequence == sequence2,
{
    let n = hex::hex(nonce);
    let n2 = hex::hex(nonce2);
    lemma_nonce_text(nonce);
    lemma_nonce_text(nonce2);
    let a = seq!["frame"@, text::decimal(seconds), text::padded(millis, 3), n, text::padded(sequence, 6)];
    let b = seq![
        "frame"@,
        text::decimal(seconds2),
        text::padded(millis2, 3),
        n2,
        text::padded(sequence2, 6),
    ];
    lemma_suffixes(
        capture_stem(seconds, millis, n, sequence),
        capture_stem(seconds2, millis2, n2, sequence2),
    );
    lemma_capture_parts(seconds, millis, n, sequence);
    lemma_capture_parts(seconds2, millis2, n2, sequence2);
    text::lemma_joined_unique(a, b, '-');
    assert(a[1] == b[1] && a[2] == b[2] && a[3] == b[3] && a[4] == b[4]);
    text::lemma_decimal(seconds);
    text::lemma_decimal(seconds2);
    text::lemma_padded(millis, 3);
    text::lemma_padded(millis2, 3);
    text::lemma_padded(sequence, 6);
    text::lemma_padded(sequence2, 6);
    hex::law_hex_is_injective(nonce, nonce2);
}

/// The key under which an endpoint recognises a repeated upload.
pub open spec fn upload_key(filename: Seq<char>, sha256: Seq<u8>) -> Seq<char> {
    IDEMPOTENCY_PREFIX@ + hex::hex(sha256) + seq!['-'] + filename
}

pub fn idempotency_key(filename: &str, sha256: &[u8; 32]) -> (r: String)
    ensures
        r@ == upload_key(filename@, sha256@),
{
    let mut value = String::new();
    value.append(IDEMPOTENCY_PREFIX);
    hex::push_hex(&mut value, sha256.as_slice());
    value.push('-');
    value.append(filename);
    assert(value@ =~= upload_key(filename@, sha256@));
    value
}

/// Two uploads share an idempotency key only if they share both their file name
/// and their contents' digest.
pub proof fn law_upload_key_is_injective(
    filename: Seq<char>,
    sha256: Seq<u8>,
    filename2: Seq<char>,
    sha2562: Seq<u8>,
)
    requires
        sha256.len() == 32,
        sha2562.len() == 32,
        upload_key(filename, sha256) == upload_key(filename2, sha2562),
    ensures
        filename == filename2,
        sha256 == sha2562,
{
    let prefix = IDEMPOTENCY_PREFIX@;
    let a = upload_key(filename, sha256);
    let b = upload_key(filename2, sha2562);
    let start = prefix.len() as int;
    hex::law_hex_is_injective(sha256, sha2562);
    hex::law_hex_is_injective(sha2562, sha256);
    assert(a.subrange(start, start + 64) =~= hex::hex(sha256));
    assert(b.subrange(start, start + 64) =~= hex::hex(sha2562));
    assert(a.skip(start + 65) =~= filename);
    assert(b.skip(start + 65) =~= filename2);
}

proof fn lemma_four_dashed(a: Seq<char>, b: Seq<char>, c: Seq<char>, d: Seq<char>)
    ensures
        text::joined(seq![a, b, c, d], '-') == a.push('-') + b.push('-') + c.push('-') + d,
{
    reveal_with_fuel(text::joined, 5);
    let all = seq![a, b, c, d];
    assert(all.drop_last() =~= seq![a, b, c]);
    assert(seq![a, b, c].drop_last() =~= seq![a, b]);
    assert(seq![a, b].drop_last() =~= seq![a]);
    assert(text::joined(seq![a], '-') == a);
    assert(text::joined(seq![a, b], '-') == a.push('-') + b);
    assert(text::joined(seq![a, b, c], '-') == (a.push('-') + b).push('-') + c);
    assert(text::joined(all, '-') =~= a.push('-') + b.push('-') + c.push('-') + d);
}

proof fn lemma_five_dashed(a: Seq<char>, b: Seq<char>, c: Seq<char>, d: Seq<char>, e: Seq<char>)
    ensures
        text::joined(seq![a, b, c, d, e], '-') == a.push('-') + b.push('-') + c.push('-') + d.push(
            '-',
        ) + e,
{
    let all = seq![a, b, c, d, e];
    assert(all.drop_last() =~= seq![a, b, c, d]);
    lemma_four_dashed(a, b, c, d);
    assert(text::joined(all, '-') =~= a.push('-') + b.push('-') + c.push('-') + d.push('-') + e);
}

/// A still is named by the word `frame`, its seconds, its milliseconds in three digits,
/// the nonce of its session and its number in six digits, with dashes between them, and
/// is a `.jpg`.
pub proof fn law_still_is_named_by_its_moment(
    captured_at_seconds: u64,
    captured_at_subsec_nanos: u32,
    session_nonce: CaptureSessionNonce,
    sequence: u64,
    r: String,
)
    requires
        call_ensures(
            capture_filename_at,
            (captured_at_seconds, captured_at_subsec_nanos, session_nonce, sequence),
            r,
        ),
    ensures
        r@ == "frame"@.push('-') + text::decimal(captured_at_seconds as nat).push('-')
            + text::padded((captured_at_subsec_nanos as int / 1_000_000) as nat, 3).push('-')
            + hex::hex(session_nonce.0@).push('-') + text::padded(sequence as nat, 6) + ".jpg"@,
{
    lemma_five_dashed(
        "frame"@,
        text::decimal(captured_at_seconds as nat),
        text::padded((captured_at_subsec_nanos as int / 1_000_000) as nat, 3),
        hex::hex(session_nonce.0@),
        text::padded(sequence as nat, 6),
    );
}

/// What has another extension is named as a still is, up to its extension.
pub proof fn law_extension_is_all_that_differs(
    captured_at_seconds: u64,
    captured_at_subsec_nanos: u32,
    session_nonce: CaptureSessionNonce,
    sequence: u64,
    extension: &str,
    still: String,
    other: String,
)
    requires
        call_ensures(
            capture_filename_at,
            (captured_at_seconds, captured_at_subsec_nanos, session_nonce, sequence),
            still,
        ),
        call_ensures(
            capture_filename_with_extension,
            (captured_at_seconds, captured_at_subsec_nanos, session_nonce, sequence, extension),
            other,
        ),
    ensures
        exists|stem: Seq<char>|
            still@ == stem + ".jpg"@ && other@ == #[trigger] (stem + seq!['.']) + extension@,
{
    let stem = capture_stem(
        captured_at_seconds as nat,
        (captured_at_subsec_nanos / 1_000_000) as nat,
        hex::hex(session_nonce.0@),
        sequence as nat,
    );
    assert(still@ == stem + ".jpg"@);
    assert(other@ == (stem + seq!['.']) + extension@);
}

/// What is written as a still's name is read as its moment in milliseconds.
pub proof fn law_named_still_is_read_back(
    captured_at_seconds: u64,
    captured_at_subsec_nanos: u32,
    session_nonce: CaptureSessionNonce,
    sequence: u64,
    name: String,
    filename: &str,
    r: Option<u64>,
)
    requires
        call_ensures(
            capture_filename_at,
            (captured_at_seconds, captured_at_subsec_nanos, session_nonce, sequence),
            name,
        ),
        call_ensures(parse_generated_capture_filename, (filename,), r),
        filename@ == name@,
        captured_at_subsec_nanos < 1_000_000_000,
        captured_at_seconds * 1_000 + 999 <= u64::MAX,
    ensures
        r matches Some(at_ms) && at_ms * 1_000_000 <= captured_at_seconds * 1_000_000_000
            + captured_at_subsec_nanos < (at_ms + 1) * 1_000_000,
{
    let millis = (captured_at_subsec_nanos / 1_000_000) as nat;
    let at = captured_at_seconds as nat * 1_000 + millis;
    law_generated_name_reads_back(
        captured_at_seconds as nat,
        millis,
        session_nonce.0@,
        sequence as nat,
        at,
    );
    if let Some(at_ms) = r {
        law_generated_name_reads_back(
            captured_at_seconds as nat,
            millis,
            session_nonce.0@,
            sequence as nat,
            at_ms as nat,
        );
    }
}

/// Whether a name has one of the two extensions of a still behind a stem.
pub open spec fn is_stem_with_jpeg(name: Seq<char>, stem: Seq<char>) -> bool {
    name == stem + ".jpg"@ || name == stem + ".jpeg"@
}

/// A name without a nonce is read exactly where it is `frame`, a number of seconds, three
/// digits and at least six, with dashes between them, and a still's extension; and then
/// as the seconds and the thousandths that it spells.
pub proof fn law_frame_name_is_read(
    filename: &str,
    seconds: nat,
    millis: nat,
    sequence: nat,
    r: Option<u64>,
    accepted: bool,
)
    requires
        call_ensures(parse_generated_frame_filename, (filename,), r),
        call_ensures(is_generated_frame_filename, (filename,), accepted),
    ensures
        accepted <==> r is Some,
        is_stem_with_jpeg(
            filename@,
            "frame"@.push('-') + text::decimal(seconds).push('-') + text::padded(millis, 3).push(
                '-',
            ) + text::padded(sequence, 6),
        ) && millis < 1_000 && sequence <= u64::MAX && 1_000 * seconds + millis <= u64::MAX
            ==> r == Some((1_000 * seconds + millis) as u64),
        r matches Some(at_ms) ==> exists|s: nat, m: nat, q: nat|
            {
                &&& #[trigger] is_stem_with_jpeg(
                    filename@,
                    "frame"@.push('-') + text::decimal(s).push('-') + text::padded(m, 3).push('-')
                        + text::padded(q, 6),
                )
                &&& m < 1_000
                &&& at_ms == 1_000 * s + m
            },
{
    lemma_four_dashed(
        "frame"@,
        text::decimal(seconds),
        text::padded(millis, 3),
        text::padded(sequence, 6),
    );
    if is_stem_with_jpeg(
        filename@,
        "frame"@.push('-') + text::decimal(seconds).push('-') + text::padded(millis, 3).push('-')
            + text::padded(sequence, 6),
    ) && millis < 1_000 && sequence <= u64::MAX && 1_000 * seconds + millis <= u64::MAX {
        assert(names_frame(filename@, seconds, millis, sequence));
        if let Some(at_ms) = r {
            let (s, m, q) = choose|s: nat, m: nat, q: nat| #[trigger]
                names_frame(filename@, s, m, q) && at_ms == s * 1_000 + m;
            law_frame_name_is_injective(s, m, q, seconds, millis, sequence, filename@);
        }
    }
    if let Some(at_ms) = r {
        let (s, m, q) = choose|s: nat, m: nat, q: nat| #[trigger]
            names_frame(filename@, s, m, q) && at_ms == s * 1_000 + m;
        lemma_four_dashed("frame"@, text::decimal(s), text::padded(m, 3), text::padded(q, 6));
        assert(is_stem_with_jpeg(
            filename@,
            "frame"@.push('-') + text::decimal(s).push('-') + text::padded(m, 3).push('-')
                + text::padded(q, 6),
        ));
    }
}

/// A generated name is read with and without the thirty-two hexadecimal digits of a
/// nonce before its number, and nothing else is one.
pub proof fn law_capture_name_is_read(
    filename: &str,
    seconds: nat,
    millis: nat,
    nonce: Seq<char>,
    sequence: nat,
    plain: Option<u64>,
    r: Option<u64>,
)
    requires
        call_ensures(parse_generated_frame_filename, (filename,), plain),
        call_ensures(parse_generated_capture_filename, (filename,), r),
    ensures
        plain is Some ==> r == plain,
        is_stem_with_jpeg(
            filename@,
            "frame"@.push('-') + text::decimal(seconds).push('-') + text::padded(millis, 3).push(
                '-',
            ) + nonce.push('-') + text::padded(sequence, 6),
        ) && nonce.len() == 32 && (forall|i: int|
            0 <= i < 32 ==> 48 <= (#[trigger] nonce[i] as int) <= 57 || 97 <= (nonce[i] as int)
                <= 102) && millis < 1_000 && sequence <= u64::MAX && 1_000 * seconds + millis
            <= u64::MAX ==> r == Some((1_000 * seconds + millis) as u64),
        r is Some && plain is None ==> exists|s: nat, m: nat, n: Seq<char>, q: nat|
            {
                &&& #[trigger] is_stem_with_jpeg(
                    filename@,
                    "frame"@.push('-') + text::decimal(s).push('-') + text::padded(m, 3).push('-')
                        + n.push('-') + text::padded(q, 6),
                )
                &&& n.len() == 32
                &&& m < 1_000
                &&& r->0 == 1_000 * s + m
            },
{
    lemma_five_dashed(
        "frame"@,
        text::decimal(seconds),
        text::padded(millis, 3),
        nonce,
        text::padded(sequence, 6),
    );
    if let Some(at) = plain {
        assert(names_generated_at(filename@, at as nat));
        let at_ms = r->0;
        let (s, m, q) = choose|s: nat, m: nat, q: nat| #[trigger]
            names_frame(filename@, s, m, q) && at == s * 1_000 + m;
        if exists|s2: nat, m2: nat, q2: nat| #[trigger]
            names_frame(filename@, s2, m2, q2) && at_ms == s2 * 1_000 + m2 {
            let (s2, m2, q2) = choose|s2: nat, m2: nat, q2: nat| #[trigger]
                names_frame(filename@, s2, m2, q2) && at_ms == s2 * 1_000 + m2;
            law_frame_name_is_injective(s, m, q, s2, m2, q2, filename@);
        } else {
            let (s2, m2, n2, q2) = choose|s2: nat, m2: nat, n2: Seq<char>, q2: nat| #[trigger]
                names_capture(filename@, s2, m2, n2, q2) && at_ms == s2 * 1_000 + m2;
            law_grammars_are_disjoint(filename@, s, m, q, s2, m2, n2, q2);
        }
    }
    if is_stem_with_jpeg(
        filename@,
        "frame"@.push('-') + text::decimal(seconds).push('-') + text::padded(millis, 3).push('-')
            + nonce.push('-') + text::padded(sequence, 6),
    ) && nonce.len() == 32 && (forall|i: int|
        0 <= i < 32 ==> 48 <= (#[trigger] nonce[i] as int) <= 57 || 97 <= (nonce[i] as int) <= 102)
        && millis < 1_000 && sequence <= u64::MAX && 1_000 * seconds + millis <= u64::MAX {
        assert forall|i: int| 0 <= i < nonce.len() implies hex::is_hex_digit(#[trigger] nonce[i]) by {
            assert(48 <= (nonce[i] as int) <= 57 || 97 <= (nonce[i] as int) <= 102);
        }
        assert(names_capture(filename@, seconds, millis, nonce, sequence));
        assert(names_generated_at(filename@, seconds * 1_000 + millis));
        let at_ms = r->0;
        if exists|s: nat, m: nat, q: nat| #[trigger]
            names_frame(filename@, s, m, q) && at_ms == s * 1_000 + m {
            let (s, m, q) = choose|s: nat, m: nat, q: nat| #[trigger]
                names_frame(filename@, s, m, q) && at_ms == s * 1_000 + m;
            law_grammars_are_disjoint(filename@, s, m, q, seconds, millis, nonce, sequence);
        } else {
            let (s, m, n, q) = choose|s: nat, m: nat, n: Seq<char>, q: nat| #[trigger]
                names_capture(filename@, s, m, n, q) && at_ms == s * 1_000 + m;
            law_session_name_is_injective(
                s,
                m,
                n,
                q,
                seconds,
                millis,
                nonce,
                sequence,
                filename@,
            );
        }
    }
    if r is Some && plain is None {
        let at_ms = r->0;
        let (s, m, n, q) = choose|s: nat, m: nat, n: Seq<char>, q: nat| #[trigger]
            names_capture(filename@, s, m, n, q) && at_ms == s * 1_000 + m;
        lemma_five_dashed("frame"@, text::decimal(s), text::padded(m, 3), n, text::padded(q, 6));
        assert(is_stem_with_jpeg(
            filename@,
            "frame"@.push('-') + text::decimal(s).push('-') + text::padded(m, 3).push('-') + n.push(
                '-',
            ) + text::padded(q, 6),
        ));
    }
}

/// An upload is known by the prefix of the service, the digest of the artifact in
/// hexadecimal digits, a dash and the file name.
pub proof fn law_upload_is_known_by_digest_and_name(
    filename: &str,
    sha256: &[u8; 32],
    r: String,
)
    requires
        call_ensures(idempotency_key, (filename, sha256), r),
    ensures
        r@ == "autopiercam-sha256-"@ + hex::hex(sha256@).push('-') + filename@,
{
    assert(r@ =~= "autopiercam-sha256-"@ + hex::hex(sha256@).push('-') + filename@);
}

/// A nonce is the sixteen bytes that were drawn, written in hexadecimal digits; and
/// where none were, there is none.
pub proof fn law_nonce_is_what_was_drawn(
    source: Result<[u8; 16], getrandom::Error>,
    r: Result<CaptureSessionNonce, NonceError>,
    nonce: CaptureSessionNonce,
    digits: String,
)
    requires
        call_ensures(CaptureSessionNonce::from_source, (source,), r),
        call_ensures(CaptureSessionNonce::hex, (nonce,), digits),
    ensures
        source matches Ok(bytes) ==> (r matches Ok(made) && made.0 == bytes),
        source is Err <==> r is Err,
        digits@ == hex::hex(nonce.0@),
        digits@.len() == 32,
{
}

} // verus!
