//! Path texts, taken apart into components.
//!
//! A text tells by its beginning how it is written: with a drive or a backslash it
//! is a Windows path, where slash and backslash both separate; with `\\?\` it is a
//! verbatim Windows path, where only the backslash does; otherwise it is a Unix
//! path, where only the slash does.

use vstd::prelude::*;

verus! {

broadcast use vstd::string::group_string_axioms;

/// How a path is written.
#[derive(Clone, Copy, Debug, PartialEq, Eq, Structural)]
pub enum PathStyle {
    Unix,
    Windows,
    Verbatim,
}

pub open spec fn is_letter(b: u8) -> bool {
    65 <= b <= 90 || 97 <= b <= 122
}

/// The upper-case form of a drive letter.
pub open spec fn upper(b: u8) -> u8 {
    if 97 <= b <= 122 {
        (b - 32) as u8
    } else {
        b
    }
}

pub open spec fn is_slash(b: u8) -> bool {
    b == 47 || b == 92
}

/// Whether a drive letter and a colon stand at a position.
pub open spec fn is_drive(bytes: Seq<u8>, at: int) -> bool {
    at + 1 < bytes.len() && is_letter(bytes[at]) && bytes[at + 1] == 58
}

pub open spec fn style_of(bytes: Seq<u8>) -> PathStyle {
    if bytes.len() >= 4 && bytes[0] == 92 && bytes[1] == 92 && bytes[2] == 63 && bytes[3] == 92 {
        PathStyle::Verbatim
    } else if bytes.len() >= 1 && bytes[0] == 92 || is_drive(bytes, 0) {
        PathStyle::Windows
    } else {
        PathStyle::Unix
    }
}

pub open spec fn is_separator(style: PathStyle, b: u8) -> bool {
    match style {
        PathStyle::Unix => b == 47,
        PathStyle::Windows => is_slash(b),
        PathStyle::Verbatim => b == 92,
    }
}

/// Where the piece that begins at a position ends.
pub open spec fn piece_end(bytes: Seq<u8>, style: PathStyle, from: int) -> int
    decreases bytes.len() - from,
{
    if from >= bytes.len() || is_separator(style, bytes[from]) {
        from
    } else {
        piece_end(bytes, style, from + 1)
    }
}

/// What a path begins with before its root: nothing, a verbatim name, share or
/// drive, a device, a share, or a drive, and how far it reaches.
pub struct PathPrefix {
    pub kind: u16,
    pub first: Seq<u8>,
    pub second: Seq<u8>,
    pub end: int,
}

pub open spec fn no_prefix() -> PathPrefix {
    PathPrefix { kind: 0, first: Seq::empty(), second: Seq::empty(), end: 0 }
}

/// The prefix of one name that begins at a position.
pub open spec fn named_prefix(
    bytes: Seq<u8>,
    style: PathStyle,
    kind: u16,
    from: int,
) -> PathPrefix {
    let end = piece_end(bytes, style, from);
    PathPrefix { kind, first: bytes.subrange(from, end), second: Seq::empty(), end }
}

/// The prefix of a server and a share that begins at a position.
pub open spec fn shared_prefix(
    bytes: Seq<u8>,
    style: PathStyle,
    kind: u16,
    from: int,
) -> PathPrefix {
    let middle = piece_end(bytes, style, from);
    let end = if middle < bytes.len() {
        piece_end(bytes, style, middle + 1)
    } else {
        middle
    };
    if end > middle + 1 {
        PathPrefix {
            kind,
            first: bytes.subrange(from, middle),
            second: bytes.subrange(middle + 1, end),
            end,
        }
    } else {
        PathPrefix { kind, first: bytes.subrange(from, middle), second: Seq::empty(), end: middle }
    }
}

pub open spec fn prefix_of(bytes: Seq<u8>) -> PathPrefix {
    let style = style_of(bytes);
    match style {
        PathStyle::Unix => no_prefix(),
        PathStyle::Verbatim => if bytes.len() >= 8 && bytes[4] == 85 && bytes[5] == 78 && bytes[6]
            == 67 && is_slash(bytes[7]) {
            shared_prefix(bytes, style, 2, 8)
        } else if is_drive(bytes, 4) && (bytes.len() == 6 || is_slash(bytes[6])) {
            PathPrefix { kind: 3, first: seq![upper(bytes[4])], second: Seq::empty(), end: 6 }
        } else {
            named_prefix(bytes, style, 1, 4)
        },
        PathStyle::Windows => if bytes.len() >= 2 && is_slash(bytes[0]) && is_slash(bytes[1]) {
            if bytes.len() >= 4 && bytes[2] == 46 && is_slash(bytes[3]) {
                named_prefix(bytes, style, 4, 4)
            } else {
                let share = shared_prefix(bytes, style, 5, 2);
                if share.first.len() > 0 && share.second.len() > 0 {
                    share
                } else {
                    no_prefix()
                }
            }
        } else if is_drive(bytes, 0) {
            PathPrefix { kind: 6, first: seq![upper(bytes[0])], second: Seq::empty(), end: 2 }
        } else {
            no_prefix()
        },
    }
}

/// Whether a separator follows the prefix of a path.
pub open spec fn is_rooted(bytes: Seq<u8>) -> bool {
    let end = prefix_of(bytes).end;
    end < bytes.len() && if style_of(bytes) == PathStyle::Unix {
        bytes[end] == 47
    } else {
        is_slash(bytes[end])
    }
}

/// Whether a path has a root, written or implied by a device or a share.
pub open spec fn has_root(bytes: Seq<u8>) -> bool {
    is_rooted(bytes) || prefix_of(bytes).kind == 4 || prefix_of(bytes).kind == 5
}

/// What follows the prefix and the root of a path.
pub open spec fn body_of(bytes: Seq<u8>) -> Seq<u8> {
    let end = prefix_of(bytes).end;
    if is_rooted(bytes) {
        bytes.skip(end + 1)
    } else {
        bytes.skip(end)
    }
}

/// What stands between the separators of some bytes.
pub open spec fn pieces(bytes: Seq<u8>, style: PathStyle) -> Seq<Seq<u8>>
    decreases bytes.len(),
{
    if bytes.len() == 0 {
        seq![Seq::empty()]
    } else {
        let before = pieces(bytes.drop_last(), style);
        if is_separator(style, bytes.last()) {
            before.push(Seq::empty())
        } else {
            before.update(before.len() - 1, before.last().push(bytes.last()))
        }
    }
}

/// Whether a leading `.` of a path's body is a component.
pub open spec fn keeps_leading_dot(bytes: Seq<u8>) -> bool {
    prefix_of(bytes).kind == 0 && !has_root(bytes)
}

/// Whether a `.` stands for the current directory where it is found.
pub open spec fn keeps_dot(style: PathStyle, leading: bool, at_start: bool) -> bool {
    style == PathStyle::Verbatim || leading && at_start
}

/// Name bytes, raised above every other code.
pub open spec fn raised(name: Seq<u8>) -> Seq<u16> {
    name.map_values(|b: u8| (b + 5) as u16)
}

/// The code of a component with a name: its bytes, and an end that is less than
/// every byte.
pub open spec fn name_code(name: Seq<u8>) -> Seq<u16> {
    raised(name).push(0u16)
}

/// The code of a prefix, which is empty where there is none.
pub open spec fn prefix_code(prefix: PathPrefix) -> Seq<u16> {
    if prefix.kind == 0 {
        Seq::empty()
    } else {
        seq![1u16, prefix.kind] + raised(prefix.first) + seq![1u16] + raised(prefix.second)
            + seq![0u16]
    }
}

/// The code of a piece, which is empty where the piece is no component. A prefix
/// comes before the root, that before the current directory, that before the parent
/// directory, and that before every name.
pub open spec fn piece_code(piece: Seq<u8>, keeps: bool) -> Seq<u16> {
    if piece.len() == 0 {
        Seq::empty()
    } else if piece == seq![46u8] {
        if keeps {
            seq![3u16, 0u16]
        } else {
            Seq::empty()
        }
    } else if piece == seq![46u8, 46u8] {
        seq![4u16, 0u16]
    } else {
        name_code(piece)
    }
}

pub open spec fn pieces_code(pieces: Seq<Seq<u8>>, style: PathStyle, leading: bool) -> Seq<u16>
    decreases pieces.len(),
{
    if pieces.len() == 0 {
        Seq::empty()
    } else {
        pieces_code(pieces.drop_last(), style, leading) + piece_code(
            pieces.last(),
            keeps_dot(style, leading, pieces.len() == 1),
        )
    }
}

pub open spec fn root_code(bytes: Seq<u8>) -> Seq<u16> {
    if has_root(bytes) {
        seq![2u16, 0u16]
    } else {
        Seq::empty()
    }
}

/// The components of a path, written so that the lexicographic order of codes is
/// the component-by-component order of paths, and equal codes are equal paths.
pub open spec fn path_key(path: Seq<char>) -> Seq<u16> {
    let bytes = vstd::utf8::encode_utf8(path);
    let style = style_of(bytes);
    prefix_code(prefix_of(bytes)) + root_code(bytes) + pieces_code(
        pieces(body_of(bytes), style),
        style,
        keeps_leading_dot(bytes),
    )
}

/// Whether a path is that of an entry of this name directly under a directory.
pub open spec fn is_child(path: Seq<char>, directory: Seq<char>, name: Seq<char>) -> bool {
    path_key(path) == path_key(directory) + name_code(vstd::utf8::encode_utf8(name))
}

/// Whether a code is that of one component other than a prefix or the root.
pub open spec fn is_entry_code(code: Seq<u16>) -> bool {
    &&& code.len() > 0
    &&& code[0] >= 3
    &&& code.last() == 0
    &&& forall|i: int| 0 <= i < code.len() - 1 ==> #[trigger] code[i] != 0
}

/// Whether a directory is the parent of a path.
pub open spec fn is_parent(directory: Seq<char>, path: Seq<char>) -> bool {
    let (above, below) = (path_key(directory), path_key(path));
    &&& above.len() <= below.len()
    &&& below.take(above.len() as int) == above
    &&& is_entry_code(below.skip(above.len() as int))
}

/// Whether a path says where it begins: from a root, and on Windows from a drive or
/// the like too.
pub open spec fn is_absolute(path: Seq<char>) -> bool {
    let bytes = vstd::utf8::encode_utf8(path);
    let kind = prefix_of(bytes).kind;
    if style_of(bytes) == PathStyle::Unix {
        is_rooted(bytes)
    } else {
        kind != 0 && (kind != 6 || is_rooted(bytes))
    }
}

fn check_slash(b: u8) -> (r: bool)
    ensures
        r == is_slash(b),
{
    b == 47 || b == 92
}

fn check_letter(b: u8) -> (r: bool)
    ensures
        r == is_letter(b),
{
    65 <= b && b <= 90 || 97 <= b && b <= 122
}

fn upper_letter(b: u8) -> (r: u8)
    ensures
        r == upper(b),
{
    if 97 <= b && b <= 122 {
        b - 32
    } else {
        b
    }
}

fn check_drive(bytes: &[u8], at: usize) -> (r: bool)
    requires
        at < 8,
    ensures
        r == is_drive(bytes@, at as int),
{
    at + 1 < bytes.len() && check_letter(bytes[at]) && bytes[at + 1] == 58
}

fn find_style(bytes: &[u8]) -> (r: PathStyle)
    ensures
        r == style_of(bytes@),
{
    if bytes.len() >= 4 && bytes[0] == 92 && bytes[1] == 92 && bytes[2] == 63 && bytes[3] == 92 {
        PathStyle::Verbatim
    } else if bytes.len() >= 1 && bytes[0] == 92 || check_drive(bytes, 0) {
        PathStyle::Windows
    } else {
        PathStyle::Unix
    }
}

fn check_separator(style: PathStyle, b: u8) -> (r: bool)
    ensures
        r == is_separator(style, b),
{
    match style {
        PathStyle::Unix => b == 47,
        PathStyle::Windows => check_slash(b),
        PathStyle::Verbatim => b == 92,
    }
}

fn find_piece_end(bytes: &[u8], style: PathStyle, from: usize) -> (r: usize)
    requires
        from <= bytes@.len(),
    ensures
        r == piece_end(bytes@, style, from as int),
        from <= r <= bytes@.len(),
{
    let mut end: usize = from;
    while end < bytes.len() && !check_separator(style, bytes[end])
        invariant
            from <= end <= bytes@.len(),
            piece_end(bytes@, style, from as int) == piece_end(bytes@, style, end as int),
        decreases bytes@.len() - end,
    {
        end = end + 1;
    }
    end
}

/// A prefix of a path, by where its names lie.
struct FoundPrefix {
    kind: u16,
    first: (usize, usize),
    second: (usize, usize),
    end: usize,
}

impl FoundPrefix {
    spec fn lies_in(self, bytes: Seq<u8>) -> bool {
        &&& self.first.0 <= self.first.1 <= bytes.len()
        &&& self.second.0 <= self.second.1 <= bytes.len()
        &&& self.end <= bytes.len()
    }

    /// Whether this is where a prefix lies; a drive letter stands for its
    /// upper-case form.
    spec fn finds(self, bytes: Seq<u8>, prefix: PathPrefix) -> bool {
        let first = bytes.subrange(self.first.0 as int, self.first.1 as int);
        &&& self.lies_in(bytes)
        &&& self.kind == prefix.kind
        &&& self.end == prefix.end
        &&& bytes.subrange(self.second.0 as int, self.second.1 as int) == prefix.second
        &&& if prefix.kind == 3 || prefix.kind == 6 {
            first.len() == 1 && prefix.first == seq![upper(first[0])]
        } else {
            first == prefix.first
        }
    }
}

fn found_none(bytes: &[u8]) -> (r: FoundPrefix)
    ensures
        r.finds(bytes@, no_prefix()),
{
    let r = FoundPrefix { kind: 0, first: (0, 0), second: (0, 0), end: 0 };
    assert(bytes@.subrange(0, 0) =~= Seq::<u8>::empty());
    r
}

fn found_named(bytes: &[u8], style: PathStyle, kind: u16, from: usize) -> (r: FoundPrefix)
    requires
        from <= bytes@.len(),
        kind == 1 || kind == 4,
    ensures
        r.finds(bytes@, named_prefix(bytes@, style, kind, from as int)),
{
    let end = find_piece_end(bytes, style, from);
    assert(bytes@.subrange(0, 0) =~= Seq::<u8>::empty());
    FoundPrefix { kind, first: (from, end), second: (0, 0), end }
}

fn found_shared(bytes: &[u8], style: PathStyle, kind: u16, from: usize) -> (r: FoundPrefix)
    requires
        from <= bytes@.len(),
        kind == 2 || kind == 5,
    ensures
        r.finds(bytes@, shared_prefix(bytes@, style, kind, from as int)),
{
    let middle = find_piece_end(bytes, style, from);
    assert(bytes@.subrange(0, 0) =~= Seq::<u8>::empty());
    if middle < bytes.len() {
        let end = find_piece_end(bytes, style, middle + 1);
        if end > middle + 1 {
            return FoundPrefix { kind, first: (from, middle), second: (middle + 1, end), end };
        }
    }
    FoundPrefix { kind, first: (from, middle), second: (0, 0), end: middle }
}

fn found_drive(bytes: &[u8], kind: u16, at: usize) -> (r: FoundPrefix)
    requires
        at < 8,
        is_drive(bytes@, at as int),
        kind == 3 || kind == 6,
    ensures
        r.finds(
            bytes@,
            (PathPrefix {
                kind,
                first: seq![upper(bytes@[at as int])],
                second: Seq::empty(),
                end: at + 2,
            }),
        ),
{
    assert(bytes@.subrange(0, 0) =~= Seq::<u8>::empty());
    assert(bytes@.subrange(at as int, at + 1)[0] == bytes@[at as int]);
    FoundPrefix { kind, first: (at, at + 1), second: (0, 0), end: at + 2 }
}

fn find_prefix(bytes: &[u8], style: PathStyle) -> (r: FoundPrefix)
    requires
        style == style_of(bytes@),
    ensures
        r.finds(bytes@, prefix_of(bytes@)),
{
    match style {
        PathStyle::Unix => found_none(bytes),
        PathStyle::Verbatim => {
            if bytes.len() >= 8 && bytes[4] == 85 && bytes[5] == 78 && bytes[6] == 67
                && check_slash(bytes[7]) {
                found_shared(bytes, style, 2, 8)
            } else if check_drive(bytes, 4) && (bytes.len() == 6 || check_slash(bytes[6])) {
                found_drive(bytes, 3, 4)
            } else {
                found_named(bytes, style, 1, 4)
            }
        },
        PathStyle::Windows => {
            if bytes.len() >= 2 && check_slash(bytes[0]) && check_slash(bytes[1]) {
                if bytes.len() >= 4 && bytes[2] == 46 && check_slash(bytes[3]) {
                    found_named(bytes, style, 4, 4)
                } else {
                    let share = found_shared(bytes, style, 5, 2);
                    if share.first.1 > share.first.0 && share.second.1 > share.second.0 {
                        share
                    } else {
                        found_none(bytes)
                    }
                }
            } else if check_drive(bytes, 0) {
                found_drive(bytes, 6, 0)
            } else {
                found_none(bytes)
            }
        },
    }
}

proof fn lemma_pieces_nonempty(bytes: Seq<u8>, style: PathStyle)
    ensures
        pieces(bytes, style).len() >= 1,
    decreases bytes.len(),
{
    if bytes.len() > 0 {
        lemma_pieces_nonempty(bytes.drop_last(), style);
    }
}

fn push_raised(key: &mut Vec<u16>, name: &[u8], from: usize, to: usize)
    requires
        from <= to <= name@.len(),
    ensures
        final(key)@ == old(key)@ + raised(name@.subrange(from as int, to as int)),
{
    let mut i: usize = from;
    assert(key@ =~= old(key)@ + raised(name@.subrange(from as int, i as int)));
    while i < to
        invariant
            from <= i <= to <= name@.len(),
            key@ == old(key)@ + raised(name@.subrange(from as int, i as int)),
        decreases to - i,
    {
        key.push(name[i] as u16 + 5);
        proof {
            assert(raised(name@.subrange(from as int, i + 1)) =~= raised(
                name@.subrange(from as int, i as int),
            ).push((name@[i as int] + 5) as u16));
        }
        i = i + 1;
    }
}

fn push_name(key: &mut Vec<u16>, name: &[u8])
    ensures
        final(key)@ == old(key)@ + name_code(name@),
{
    push_raised(key, name, 0, name.len());
    assert(name@.subrange(0, name@.len() as int) =~= name@);
    key.push(0);
    assert(key@ =~= old(key)@ + name_code(name@));
}

fn push_prefix(key: &mut Vec<u16>, bytes: &[u8], prefix: &FoundPrefix)
    requires
        prefix.finds(bytes@, prefix_of(bytes@)),
    ensures
        final(key)@ == old(key)@ + prefix_code(prefix_of(bytes@)),
{
    let ghost parsed = prefix_of(bytes@);
    let ghost before = key@;
    if prefix.kind == 0 {
        assert(key@ =~= before + prefix_code(parsed));
        return ;
    }
    key.push(1);
    key.push(prefix.kind);
    let ghost marked = key@;
    assert(marked =~= before + seq![1u16, parsed.kind]);
    if prefix.kind == 3 || prefix.kind == 6 {
        let ghost letter = bytes@.subrange(prefix.first.0 as int, prefix.first.1 as int);
        assert(letter.len() == 1 && letter[0] == bytes@[prefix.first.0 as int]);
        key.push(upper_letter(bytes[prefix.first.0]) as u16 + 5);
        assert(raised(parsed.first) =~= seq![(upper(letter[0]) + 5) as u16]);
        assert(key@ =~= marked + raised(parsed.first));
    } else {
        push_raised(key, bytes, prefix.first.0, prefix.first.1);
    }
    key.push(1);
    push_raised(key, bytes, prefix.second.0, prefix.second.1);
    key.push(0);
    assert(key@ =~= before + prefix_code(parsed));
}

fn push_piece(key: &mut Vec<u16>, piece: &Vec<u8>, keeps: bool)
    ensures
        final(key)@ == old(key)@ + piece_code(piece@, keeps),
{
    if piece.len() == 0 {
        assert(key@ =~= old(key)@ + piece_code(piece@, keeps));
        return ;
    }
    if piece.len() == 1 && piece[0] == 46 {
        assert(piece@ =~= seq![46u8]);
        if keeps {
            key.push(3);
            key.push(0);
        }
        assert(key@ =~= old(key)@ + piece_code(piece@, keeps));
        return ;
    }
    if piece.len() == 2 && piece[0] == 46 && piece[1] == 46 {
        assert(piece@ =~= seq![46u8, 46u8]);
        assert(seq![46u8, 46u8].len() == 2 && seq![46u8].len() == 1);
        key.push(4);
        key.push(0);
        assert(key@ =~= old(key)@ + piece_code(piece@, keeps));
        return ;
    }
    assert(piece@ != seq![46u8]) by {
        if piece@ == seq![46u8] {
            assert(piece@[0] == 46u8 && piece@.len() == 1);
        }
    }
    assert(piece@ != seq![46u8, 46u8]) by {
        if piece@ == seq![46u8, 46u8] {
            assert(piece@[0] == 46u8 && piece@[1] == 46u8 && piece@.len() == 2);
        }
    }
    push_name(key, piece.as_slice());
}

fn push_body(key: &mut Vec<u16>, bytes: &[u8], start: usize, style: PathStyle, leading: bool)
    requires
        start <= bytes@.len(),
    ensures
        final(key)@ == old(key)@ + pieces_code(
            pieces(bytes@.skip(start as int), style),
            style,
            leading,
        ),
{
    let ghost before = key@;
    let ghost body = bytes@.skip(start as int);
    let mut piece: Vec<u8> = Vec::new();
    let mut at_start = true;
    let mut i: usize = start;
    proof {
        assert(body.take(0) =~= Seq::<u8>::empty());
        assert(pieces(body.take(0), style).drop_last() =~= Seq::<Seq<u8>>::empty());
        assert(key@ =~= before + pieces_code(
            pieces(body.take(0), style).drop_last(),
            style,
            leading,
        ));
    }
    while i < bytes.len()
        invariant
            start <= i <= bytes.len(),
            body == bytes@.skip(start as int),
            pieces(body.take(i - start), style).len() >= 1,
            piece@ == pieces(body.take(i - start), style).last(),
            at_start == (pieces(body.take(i - start), style).len() == 1),
            key@ == before + pieces_code(
                pieces(body.take(i - start), style).drop_last(),
                style,
                leading,
            ),
        decreases bytes.len() - i,
    {
        let ghost sofar = pieces(body.take(i - start), style);
        let ghost after = pieces(body.take(i + 1 - start), style);
        proof {
            assert(body.take(i + 1 - start).drop_last() =~= body.take(i - start));
            assert(body.take(i + 1 - start).last() == bytes@[i as int]);
        }
        if check_separator(style, bytes[i]) {
            push_piece(key, &piece, style == PathStyle::Verbatim || leading && at_start);
            piece = Vec::new();
            at_start = false;
            proof {
                assert(after.drop_last() =~= sofar);
                assert(key@ =~= before + pieces_code(sofar, style, leading));
                assert(piece@ =~= after.last());
            }
        } else {
            piece.push(bytes[i]);
            proof {
                assert(after.drop_last() =~= sofar.drop_last());
                assert(piece@ =~= after.last());
            }
        }
        i = i + 1;
    }
    proof {
        assert(body.take(i - start) =~= body);
        lemma_pieces_nonempty(body, style);
    }
    push_piece(key, &piece, style == PathStyle::Verbatim || leading && at_start);
    assert(key@ =~= before + pieces_code(pieces(body, style), style, leading));
}

fn check_rooted(bytes: &[u8], style: PathStyle, prefix: &FoundPrefix) -> (r: bool)
    requires
        style == style_of(bytes@),
        prefix.finds(bytes@, prefix_of(bytes@)),
    ensures
        r == is_rooted(bytes@),
{
    if prefix.end >= bytes.len() {
        return false;
    }
    match style {
        PathStyle::Unix => bytes[prefix.end] == 47,
        _ => check_slash(bytes[prefix.end]),
    }
}

/// The key of a path.
pub fn key_of(path: &str) -> (r: Vec<u16>)
    ensures
        r@ == path_key(path@),
{
    let bytes = path.as_bytes();
    let style = find_style(bytes);
    let prefix = find_prefix(bytes, style);
    let rooted = check_rooted(bytes, style, &prefix);
    let root = rooted || prefix.kind == 4 || prefix.kind == 5;
    let mut key: Vec<u16> = Vec::new();
    push_prefix(&mut key, bytes, &prefix);
    assert(key@ =~= prefix_code(prefix_of(bytes@)));
    if root {
        key.push(2);
        key.push(0);
    }
    assert(key@ =~= prefix_code(prefix_of(bytes@)) + root_code(bytes@));
    let length: usize = bytes.len();
    assert(rooted ==> prefix.end < length);
    let start: usize = if rooted {
        prefix.end + 1
    } else {
        prefix.end
    };
    push_body(&mut key, bytes, start, style, prefix.kind == 0 && !root);
    assert(key@ =~= path_key(path@));
    key
}

fn same_codes(a: &Vec<u16>, b: &Vec<u16>) -> (r: bool)
    ensures
        r == (a@ == b@),
{
    if a.len() != b.len() {
        return false;
    }
    let mut i: usize = 0;
    while i < a.len()
        invariant
            i <= a.len(),
            a.len() == b.len(),
            a@.take(i as int) =~= b@.take(i as int),
        decreases a.len() - i,
    {
        if a[i] != b[i] {
            assert(a@[i as int] != b@[i as int]);
            return false;
        }
        proof {
            assert(a@.take(i + 1) =~= a@.take(i as int).push(a@[i as int]));
            assert(b@.take(i + 1) =~= b@.take(i as int).push(b@[i as int]));
        }
        i = i + 1;
    }
    assert(a@.take(i as int) =~= a@);
    assert(b@.take(i as int) =~= b@);
    true
}

/// Whether two texts write the same path.
pub fn same_path(a: &str, b: &str) -> (r: bool)
    ensures
        r == (path_key(a@) == path_key(b@)),
{
    let a_key = key_of(a);
    let b_key = key_of(b);
    same_codes(&a_key, &b_key)
}

/// Whether a path is that of an entry of this name directly under a directory.
pub fn check_child(path: &str, directory: &str, name: &str) -> (r: bool)
    ensures
        r == is_child(path@, directory@, name@),
{
    let mut expected = key_of(directory);
    push_name(&mut expected, name.as_bytes());
    let actual = key_of(path);
    same_codes(&actual, &expected)
}

/// Whether a directory is the parent of a path.
pub fn check_parent(directory: &str, path: &str) -> (r: bool)
    ensures
        r == is_parent(directory@, path@),
{
    let above = key_of(directory);
    let below = key_of(path);
    if above.len() >= below.len() {
        return false;
    }
    let ghost rest = below@.skip(above@.len() as int);
    let mut i: usize = 0;
    while i < above.len()
        invariant
            above@ == path_key(directory@),
            below@ == path_key(path@),
            i <= above.len() < below.len(),
            below@.take(i as int) =~= above@.take(i as int),
        decreases above.len() - i,
    {
        if above[i] != below[i] {
            assert(below@.take(above@.len() as int)[i as int] != above@[i as int]);
            return false;
        }
        proof {
            assert(below@.take(i + 1) =~= below@.take(i as int).push(below@[i as int]));
            assert(above@.take(i + 1) =~= above@.take(i as int).push(above@[i as int]));
        }
        i = i + 1;
    }
    assert(above@.take(i as int) =~= above@);
    if below[i] < 3 || below[below.len() - 1] != 0 {
        return false;
    }
    let mut k: usize = i;
    while k < below.len() - 1
        invariant
            above@ == path_key(directory@),
            below@ == path_key(path@),
            i <= k < below.len(),
            i == above.len(),
            rest == below@.skip(i as int),
            forall|j: int| 0 <= j < k - i ==> #[trigger] rest[j] != 0,
        decreases below.len() - k,
    {
        if below[k] == 0 {
            assert(rest[k - i] == 0);
            return false;
        }
        k = k + 1;
    }
    true
}

/// Whether a path says where it begins.
pub fn check_absolute(path: &str) -> (r: bool)
    ensures
        r == is_absolute(path@),
{
    let bytes = path.as_bytes();
    let style = find_style(bytes);
    let prefix = find_prefix(bytes, style);
    let rooted = check_rooted(bytes, style, &prefix);
    match style {
        PathStyle::Unix => rooted,
        _ => prefix.kind != 0 && (prefix.kind != 6 || rooted),
    }
}

proof fn lemma_one_more_piece(x: Seq<u8>, style: PathStyle, separator: u8, name: Seq<u8>)
    requires
        is_separator(style, separator),
        forall|i: int| 0 <= i < name.len() ==> !is_separator(style, #[trigger] name[i]),
    ensures
        pieces(x.push(separator) + name, style) == pieces(x, style).push(name),
    decreases name.len(),
{
    let whole = x.push(separator) + name;
    if name.len() == 0 {
        assert(whole =~= x.push(separator));
        assert(whole.drop_last() =~= x);
        assert(name =~= Seq::<u8>::empty());
    } else {
        let rest = name.drop_last();
        assert forall|i: int| 0 <= i < rest.len() implies !is_separator(
            style,
            #[trigger] rest[i],
        ) by {
            assert(rest[i] == name[i]);
        }
        lemma_one_more_piece(x, style, separator, rest);
        assert(whole.drop_last() =~= x.push(separator) + rest);
        assert(whole.last() == name.last());
        assert(!is_separator(style, name[name.len() - 1]));
        assert(rest.push(name.last()) =~= name);
        assert(pieces(whole, style) =~= pieces(x, style).push(name));
    }
}

/// Whether a path begins neither with a backslash nor with a drive, and is not empty.
pub open spec fn begins_like_unix(bytes: Seq<u8>) -> bool {
    &&& bytes.len() > 0
    &&& bytes[0] != 92
    &&& !(bytes.len() > 1 && bytes[1] == 58 && (65 <= bytes[0] <= 90 || 97 <= bytes[0] <= 122))
}

/// What stands behind a slash is one more piece of a Unix path.
proof fn lemma_unix_key(directory: Seq<char>, path: Seq<char>, name: Seq<u8>)
    requires
        begins_like_unix(vstd::utf8::encode_utf8(directory)),
        vstd::utf8::encode_utf8(path) == vstd::utf8::encode_utf8(directory).push(47) + name,
        forall|i: int| 0 <= i < name.len() ==> #[trigger] name[i] != 47,
    ensures
        path_key(path) == path_key(directory) + piece_code(name, false),
{
    let d = vstd::utf8::encode_utf8(directory);
    let p = vstd::utf8::encode_utf8(path);
    let style = PathStyle::Unix;
    assert(p[0] == d[0]);
    if d.len() > 1 {
        assert(p[1] == d[1]);
    } else {
        assert(p[1] == 47);
    }
    assert(style_of(d) == style && style_of(p) == style);
    assert(body_of(p) =~= body_of(d).push(47) + name);
    lemma_one_more_piece(body_of(d), style, 47, name);
    lemma_pieces_nonempty(body_of(d), style);
    let before = pieces(body_of(d), style);
    let leading = keeps_leading_dot(d);
    assert(keeps_leading_dot(p) == leading);
    assert(before.push(name).drop_last() =~= before);
    assert(pieces_code(before.push(name), style, leading) == pieces_code(before, style, leading)
        + piece_code(name, false));
    assert(path_key(path) =~= path_key(directory) + piece_code(name, false));
}

/// Whether some bytes are a name that a directory can hold: not empty, without a slash,
/// and neither the directory itself nor the one above it.
pub open spec fn is_plain_name(name: Seq<u8>) -> bool {
    &&& name.len() > 0
    &&& forall|i: int| 0 <= i < name.len() ==> #[trigger] name[i] != 47
    &&& name != seq![46u8]
    &&& name != seq![46u8, 46u8]
}

/// A name behind a directory and a slash is that of an entry of the directory, which is
/// its parent.
pub proof fn law_name_behind_a_slash_is_an_entry(
    path: &str,
    directory: &str,
    name: &str,
    child: bool,
    parent: bool,
)
    requires
        call_ensures(check_child, (path, directory, name), child),
        call_ensures(check_parent, (directory, path), parent),
        begins_like_unix(vstd::utf8::encode_utf8(directory@)),
        is_plain_name(vstd::utf8::encode_utf8(name@)),
        vstd::utf8::encode_utf8(path@) == vstd::utf8::encode_utf8(directory@).push(47)
            + vstd::utf8::encode_utf8(name@),
    ensures
        child,
        parent,
{
    let n = vstd::utf8::encode_utf8(name@);
    lemma_unix_key(directory@, path@, n);
    let above = path_key(directory@);
    let below = path_key(path@);
    let code = name_code(n);
    assert(below == above + code);
    assert(below.take(above.len() as int) =~= above);
    assert(below.skip(above.len() as int) =~= code);
    assert(code[0] == raised(n)[0]);
    assert forall|i: int| 0 <= i < code.len() - 1 implies #[trigger] code[i] != 0 by {
        assert(code[i] == raised(n)[i]);
    }
}

/// What lies deeper than a directory's entries is none of them, and what has another
/// name is another entry.
pub proof fn law_other_name_is_another_entry(
    path: &str,
    directory: &str,
    name: &str,
    other: &str,
    child: bool,
    second: &str,
    same: bool,
)
    requires
        call_ensures(check_child, (path, directory, other), child),
        call_ensures(same_path, (path, second), same),
        begins_like_unix(vstd::utf8::encode_utf8(directory@)),
        is_plain_name(vstd::utf8::encode_utf8(name@)),
        is_plain_name(vstd::utf8::encode_utf8(other@)),
        vstd::utf8::encode_utf8(name@) != vstd::utf8::encode_utf8(other@),
        vstd::utf8::encode_utf8(path@) == vstd::utf8::encode_utf8(directory@).push(47)
            + vstd::utf8::encode_utf8(name@),
        vstd::utf8::encode_utf8(second@) == vstd::utf8::encode_utf8(directory@).push(47)
            + vstd::utf8::encode_utf8(other@),
    ensures
        !child,
        !same,
{
    let n = vstd::utf8::encode_utf8(name@);
    let o = vstd::utf8::encode_utf8(other@);
    lemma_unix_key(directory@, path@, n);
    lemma_unix_key(directory@, second@, o);
    let above = path_key(directory@);
    if above + name_code(n) == above + name_code(o) {
        let k = above.len() as int;
        assert((above + name_code(n)).skip(k) =~= name_code(n));
        assert((above + name_code(o)).skip(k) =~= name_code(o));
        assert(raised(n) =~= name_code(n).drop_last());
        assert(raised(o) =~= name_code(o).drop_last());
        assert(n.len() == raised(n).len());
        assert forall|i: int| 0 <= i < n.len() implies n[i] == o[i] by {
            assert(raised(n)[i] == raised(o)[i]);
        }
        assert(n =~= o);
    }
}

/// A slash at the end of a path, or a slash and a dot, lead nowhere else.
pub proof fn law_trailing_slash_leads_nowhere_else(
    path: &str,
    slashed: &str,
    dotted: &str,
    same: bool,
    still: bool,
)
    requires
        call_ensures(same_path, (path, slashed), same),
        call_ensures(same_path, (path, dotted), still),
        begins_like_unix(vstd::utf8::encode_utf8(path@)),
        vstd::utf8::encode_utf8(slashed@) == vstd::utf8::encode_utf8(path@).push(47),
        vstd::utf8::encode_utf8(dotted@) == vstd::utf8::encode_utf8(path@).push(47).push(46),
    ensures
        same,
        still,
{
    let p = vstd::utf8::encode_utf8(path@);
    assert(p.push(47) =~= p.push(47) + Seq::<u8>::empty());
    lemma_unix_key(path@, slashed@, Seq::empty());
    assert(path_key(slashed@) =~= path_key(path@));
    assert(p.push(47).push(46) =~= p.push(47) + seq![46u8]);
    lemma_unix_key(path@, dotted@, seq![46u8]);
    assert(path_key(dotted@) =~= path_key(path@));
}

/// A path is the same as itself, and sameness has no direction.
pub proof fn law_same_path_has_no_direction(a: &str, b: &str, r: bool, s: bool)
    requires
        call_ensures(same_path, (a, b), r),
        call_ensures(same_path, (b, a), s),
    ensures
        r == s,
        a@ == b@ ==> r,
{
}

/// The letter of a drive may be written large or small.
pub proof fn law_drive_letters_have_no_case(a: &str, b: &str, r: bool)
    requires
        call_ensures(same_path, (a, b), r),
        vstd::utf8::encode_utf8(a@).len() >= 2,
        65 <= vstd::utf8::encode_utf8(a@)[0] <= 90,
        vstd::utf8::encode_utf8(a@)[1] == 58,
        vstd::utf8::encode_utf8(b@) == vstd::utf8::encode_utf8(a@).update(
            0,
            (vstd::utf8::encode_utf8(a@)[0] + 32) as u8,
        ),
    ensures
        r,
{
    let x = vstd::utf8::encode_utf8(a@);
    let y = vstd::utf8::encode_utf8(b@);
    assert(is_drive(x, 0) && is_drive(y, 0));
    assert(prefix_of(x).first =~= prefix_of(y).first);
    assert(body_of(x) =~= body_of(y));
}

/// A path is absolute from a slash on, or from a drive and a slash on; a bare name, a
/// bare drive, a drive with a name and a lone backslash with a name are not.
pub proof fn law_absolute_path_says_where_it_begins(path: &str, r: bool)
    requires
        call_ensures(check_absolute, (path,), r),
    ensures
        ({
            let b = vstd::utf8::encode_utf8(path@);
            let drive = b.len() > 1 && b[1] == 58 && (65 <= b[0] <= 90 || 97 <= b[0] <= 122);
            &&& b.len() == 0 ==> !r
            &&& b.len() > 0 && b[0] == 47 ==> r
            &&& drive && b.len() > 2 && (b[2] == 47 || b[2] == 92) ==> r
            &&& drive && (b.len() == 2 || (b[2] != 47 && b[2] != 92)) ==> !r
            &&& b.len() > 0 && b[0] != 47 && b[0] != 92 && !drive ==> !r
            &&& b.len() > 1 && b[0] == 92 && b[1] != 92 && b[1] != 47 ==> !r
        }),
{
}

} // verus!
