//! What the order of path keys means: paths are ordered component by component.

use vstd::prelude::*;

use crate::order;
use crate::path;
use crate::path::PathStyle;

verus! {

/// A component of a path.
pub enum PathComponent {
    /// What comes before the root on Windows: its kind and its one or two names.
    Prefix(u16, Seq<u8>, Seq<u8>),
    Root,
    Current,
    Parent,
    Name(Seq<u8>),
}

/// The component that a piece between two separators stands for, if it is one.
pub open spec fn piece_component(piece: Seq<u8>, keeps: bool) -> Option<PathComponent> {
    if piece.len() == 0 {
        None
    } else if piece == seq![46u8] {
        if keeps {
            Some(PathComponent::Current)
        } else {
            None
        }
    } else if piece == seq![46u8, 46u8] {
        Some(PathComponent::Parent)
    } else {
        Some(PathComponent::Name(piece))
    }
}

pub open spec fn piece_components(
    pieces: Seq<Seq<u8>>,
    style: PathStyle,
    leading: bool,
) -> Seq<PathComponent>
    decreases pieces.len(),
{
    if pieces.len() == 0 {
        Seq::empty()
    } else {
        let before = piece_components(pieces.drop_last(), style, leading);
        match piece_component(
            pieces.last(),
            path::keeps_dot(style, leading, pieces.len() == 1),
        ) {
            Some(component) => before.push(component),
            None => before,
        }
    }
}

/// The components of a path before its names.
pub open spec fn head_components(bytes: Seq<u8>) -> Seq<PathComponent> {
    let prefix = path::prefix_of(bytes);
    let start = if prefix.kind == 0 {
        Seq::empty()
    } else {
        seq![PathComponent::Prefix(prefix.kind, prefix.first, prefix.second)]
    };
    if path::has_root(bytes) {
        start.push(PathComponent::Root)
    } else {
        start
    }
}

/// The components of a path.
pub open spec fn components(path: Seq<char>) -> Seq<PathComponent> {
    let bytes = vstd::utf8::encode_utf8(path);
    let style = path::style_of(bytes);
    head_components(bytes) + piece_components(
        path::pieces(path::body_of(bytes), style),
        style,
        path::keeps_leading_dot(bytes),
    )
}

/// Whether a name comes before another, byte by byte, or equals it.
pub open spec fn name_le(a: Seq<u8>, b: Seq<u8>) -> bool
    decreases a.len(),
{
    if a.len() == 0 {
        true
    } else if b.len() == 0 {
        false
    } else if a[0] != b[0] {
        a[0] < b[0]
    } else {
        name_le(a.skip(1), b.skip(1))
    }
}

/// Where a kind of component stands in the order.
pub open spec fn component_rank(component: PathComponent) -> int {
    match component {
        PathComponent::Prefix(_, _, _) => 0,
        PathComponent::Root => 1,
        PathComponent::Current => 2,
        PathComponent::Parent => 3,
        PathComponent::Name(_) => 4,
    }
}

/// Whether a prefix comes before another, or equals it: by their kinds, then by
/// their first names, then by their second.
pub open spec fn prefix_le(
    a_kind: u16,
    a_first: Seq<u8>,
    a_second: Seq<u8>,
    b_kind: u16,
    b_first: Seq<u8>,
    b_second: Seq<u8>,
) -> bool {
    if a_kind != b_kind {
        a_kind < b_kind
    } else if a_first != b_first {
        name_le(a_first, b_first)
    } else {
        name_le(a_second, b_second)
    }
}

/// Whether a component comes before another, or equals it: a prefix before the
/// root, that before the current directory, that before the parent directory, that
/// before every name.
pub open spec fn component_le(a: PathComponent, b: PathComponent) -> bool {
    match (a, b) {
        (PathComponent::Name(x), PathComponent::Name(y)) => name_le(x, y),
        (PathComponent::Prefix(k, x, y), PathComponent::Prefix(l, z, w)) => prefix_le(
            k,
            x,
            y,
            l,
            z,
            w,
        ),
        _ => component_rank(a) <= component_rank(b),
    }
}

/// Whether components come before others in dictionary order, or equal them.
pub open spec fn components_le(a: Seq<PathComponent>, b: Seq<PathComponent>) -> bool
    decreases a.len(),
{
    if a.len() == 0 {
        true
    } else if b.len() == 0 {
        false
    } else if a[0] != b[0] {
        component_le(a[0], b[0])
    } else {
        components_le(a.skip(1), b.skip(1))
    }
}

/// Paths are ordered by their components, the first that differs deciding, and a
/// path before what stands under it. Paths of equal components are equal in this
/// order, and only they are.
pub proof fn law_paths_are_ordered_by_components(a: Seq<char>, b: Seq<char>)
    ensures
        order::path_le(a, b) <==> components_le(components(a), components(b)),
        path::path_key(a) == path::path_key(b) <==> components(a) == components(b),
{
    lemma_key_spells(a);
    lemma_key_spells(b);
    lemma_sound(a);
    lemma_sound(b);
    lemma_spelled_order(components(a), components(b));
    if path::path_key(a) == path::path_key(b) {
        lemma_spelled_apart(components(a), components(b));
    }
}

/// A path is that of an entry directly under a directory exactly if it has one
/// component more than the directory, the entry's name.
pub proof fn law_child_is_one_name_below(path: Seq<char>, directory: Seq<char>, name: Seq<char>)
    requires
        vstd::utf8::encode_utf8(name).len() > 0,
    ensures
        path::is_child(path, directory, name) <==> components(path) == components(directory).push(
            PathComponent::Name(vstd::utf8::encode_utf8(name)),
        ),
{
    let next = PathComponent::Name(vstd::utf8::encode_utf8(name));
    lemma_key_spells(path);
    lemma_key_spells(directory);
    lemma_sound(path);
    lemma_sound(directory);
    lemma_spelled_push(components(directory), next);
    if path::is_child(path, directory, name) {
        lemma_spelled_apart(components(path), components(directory).push(next));
    }
}

/// A directory is the parent of a path exactly if the path has one component more,
/// which is neither a prefix nor the root.
pub proof fn law_parent_is_one_component_above(directory: Seq<char>, path: Seq<char>)
    ensures
        path::is_parent(directory, path) <==> {
            &&& components(path).len() > 0
            &&& component_rank(components(path).last()) >= 2
            &&& components(path).drop_last() == components(directory)
        },
{
    let (above, below) = (components(directory), components(path));
    lemma_key_spells(path);
    lemma_key_spells(directory);
    lemma_sound(path);
    lemma_sound(directory);
    let n = spelled(above).len() as int;
    if below.len() > 0 && below.drop_last() == above {
        assert(below =~= above.push(below.last()));
        lemma_spelled_push(above, below.last());
        lemma_component_code(below.last());
        assert(spelled(below).take(n) =~= spelled(above));
        assert(spelled(below).skip(n) =~= component_code(below.last()));
    }
    if path::is_parent(directory, path) {
        let rest = spelled(below).skip(n);
        assert(spelled(below) =~= spelled(above) + rest);
        lemma_spelled_begins(above, below, rest);
    }
}

/// If the spelling of components begins with that of others and goes on with the
/// code of one entry, they are the others and that entry.
proof fn lemma_spelled_begins(
    above: Seq<PathComponent>,
    below: Seq<PathComponent>,
    rest: Seq<u16>,
)
    requires
        sound(above),
        sound(below),
        path::is_entry_code(rest),
        spelled(below) == spelled(above) + rest,
    ensures
        below.len() > 0,
        component_rank(below.last()) >= 2,
        below.drop_last() == above,
    decreases above.len(),
{
    if below.len() == 0 {
        assert(spelled(below).len() == 0);
    } else {
        lemma_component_code(below[0]);
        let (code, tail) = (component_code(below[0]), spelled(below.skip(1)));
        if above.len() == 0 {
            assert(spelled(above) + rest =~= rest);
            assert(code + tail == rest);
            if below.len() > 1 {
                assert(rest[code.len() - 1] == code.last());
                lemma_component_code(below.skip(1)[0]);
                assert(tail.len() > 0);
            }
            assert(below.drop_last() =~= above);
            assert(rest[0] == code[0]);
        } else {
            lemma_component_code(above[0]);
            let over = spelled(above.skip(1)) + rest;
            assert(spelled(above) + rest =~= component_code(above[0]) + over);
            lemma_component_order(below[0], above[0]);
            lemma_first_code_decides(code, component_code(above[0]), tail, over, 0);
            assert(below[0] == above[0]);
            let n = code.len() as int;
            assert((code + tail).skip(n) =~= tail);
            assert((component_code(above[0]) + over).skip(n) =~= over);
            lemma_spelled_begins(above.skip(1), below.skip(1), rest);
            assert(below.last() == below.skip(1).last());
            assert(below.drop_last() =~= seq![below[0]] + below.skip(1).drop_last());
            assert(above =~= seq![above[0]] + above.skip(1));
        }
    }
}

/// The bytes of a name, and a mark at their end.
spec fn marked(name: Seq<u8>, mark: u16) -> Seq<u16> {
    path::raised(name).push(mark)
}

/// The code of a component.
spec fn component_code(component: PathComponent) -> Seq<u16> {
    match component {
        PathComponent::Prefix(kind, first, second) => seq![1u16, kind] + (marked(first, 1)
            + marked(second, 0)),
        PathComponent::Root => seq![2u16, 0u16],
        PathComponent::Current => seq![3u16, 0u16],
        PathComponent::Parent => seq![4u16, 0u16],
        PathComponent::Name(name) => path::name_code(name),
    }
}

spec fn spelled(components: Seq<PathComponent>) -> Seq<u16>
    decreases components.len(),
{
    if components.len() == 0 {
        Seq::empty()
    } else {
        component_code(components[0]) + spelled(components.skip(1))
    }
}

/// Whether a code holds a mark at its end and nowhere else.
spec fn ends_once(code: Seq<u16>, mark: u16) -> bool {
    &&& code.len() > 0
    &&& code.last() == mark
    &&& forall|i: int| 0 <= i < code.len() - 1 ==> #[trigger] code[i] != mark
}

/// Whether a component can occur: a name has a character, and a prefix a kind.
spec fn occurs(component: PathComponent) -> bool {
    match component {
        PathComponent::Prefix(kind, _, _) => kind != 0,
        PathComponent::Name(name) => name.len() > 0,
        _ => true,
    }
}

spec fn sound(components: Seq<PathComponent>) -> bool {
    forall|i: int| 0 <= i < components.len() ==> occurs(#[trigger] components[i])
}

proof fn lemma_component_code(component: PathComponent)
    requires
        occurs(component),
    ensures
        ends_once(component_code(component), 0),
{
    let code = component_code(component);
    match component {
        PathComponent::Prefix(kind, first, second) => {
            assert forall|i: int| 0 <= i < code.len() - 1 implies #[trigger] code[i] != 0 by {
                let n = first.len() as int;
                if i >= 2 && i < 2 + n {
                    assert(code[i] == first[i - 2] + 5);
                } else if i >= 3 + n {
                    assert(code[i] == second[i - 3 - n] + 5);
                }
            }
        },
        _ => {},
    }
}

proof fn lemma_spelled_push(components: Seq<PathComponent>, next: PathComponent)
    ensures
        spelled(components.push(next)) == spelled(components) + component_code(next),
    decreases components.len(),
{
    let all = components.push(next);
    if components.len() == 0 {
        assert(all.skip(1) =~= Seq::<PathComponent>::empty());
        assert(spelled(all) =~= component_code(next) + spelled(all.skip(1)));
        assert(spelled(all) =~= spelled(components) + component_code(next));
    } else {
        lemma_spelled_push(components.skip(1), next);
        assert(all.skip(1) =~= components.skip(1).push(next));
        assert(spelled(all) =~= spelled(components) + component_code(next));
    }
}

proof fn lemma_spelled_together(a: Seq<PathComponent>, b: Seq<PathComponent>)
    ensures
        spelled(a + b) == spelled(a) + spelled(b),
    decreases b.len(),
{
    if b.len() == 0 {
        assert(a + b =~= a);
        assert(spelled(a) + spelled(b) =~= spelled(a));
    } else {
        lemma_spelled_together(a, b.drop_last());
        assert((a + b) =~= (a + b.drop_last()).push(b.last()));
        assert(b =~= b.drop_last().push(b.last()));
        lemma_spelled_push(a + b.drop_last(), b.last());
        lemma_spelled_push(b.drop_last(), b.last());
        assert(spelled(a + b) =~= spelled(a) + spelled(b));
    }
}

proof fn lemma_pieces_spelled(pieces: Seq<Seq<u8>>, style: PathStyle, leading: bool)
    ensures
        path::pieces_code(pieces, style, leading) == spelled(
            piece_components(pieces, style, leading),
        ),
    decreases pieces.len(),
{
    if pieces.len() > 0 {
        lemma_pieces_spelled(pieces.drop_last(), style, leading);
        let before = piece_components(pieces.drop_last(), style, leading);
        match piece_component(
            pieces.last(),
            path::keeps_dot(style, leading, pieces.len() == 1),
        ) {
            Some(component) => {
                lemma_spelled_push(before, component);
            },
            None => {
                assert(path::pieces_code(pieces, style, leading) =~= path::pieces_code(
                    pieces.drop_last(),
                    style,
                    leading,
                ));
            },
        }
    }
}

proof fn lemma_key_spells(path: Seq<char>)
    ensures
        path::path_key(path) == spelled(components(path)),
{
    let bytes = vstd::utf8::encode_utf8(path);
    let style = path::style_of(bytes);
    let leading = path::keeps_leading_dot(bytes);
    let body = path::pieces(path::body_of(bytes), style);
    let prefix = path::prefix_of(bytes);
    let head = head_components(bytes);
    lemma_pieces_spelled(body, style, leading);
    lemma_spelled_together(head, piece_components(body, style, leading));
    let none = Seq::<PathComponent>::empty();
    let start = PathComponent::Prefix(prefix.kind, prefix.first, prefix.second);
    lemma_spelled_push(none, start);
    lemma_spelled_push(none, PathComponent::Root);
    lemma_spelled_push(none.push(start), PathComponent::Root);
    assert(none.push(start) =~= seq![start]);
    if prefix.kind != 0 {
        assert(component_code(start) =~= path::prefix_code(prefix));
    }
    assert(spelled(head) =~= path::prefix_code(prefix) + path::root_code(bytes));
    assert(path::path_key(path) =~= spelled(components(path)));
}

/// Between codes that end once, the first that differs decides.
proof fn lemma_first_code_decides(
    a: Seq<u16>,
    b: Seq<u16>,
    x: Seq<u16>,
    y: Seq<u16>,
    mark: u16,
)
    requires
        ends_once(a, mark),
        ends_once(b, mark),
    ensures
        a != b ==> order::codes_le(a + x, b + y) == order::codes_le(a, b),
        a != b ==> a + x != b + y,
        a == b ==> order::codes_le(a + x, b + y) == order::codes_le(x, y),
    decreases a.len(),
{
    assert((a + x)[0] == a[0]);
    assert((b + y)[0] == b[0]);
    if a[0] == b[0] {
        assert((a + x).skip(1) =~= a.skip(1) + x);
        assert((b + y).skip(1) =~= b.skip(1) + y);
        if a[0] == mark {
            assert(a.len() == 1 && b.len() == 1);
            assert(a =~= b);
            assert(a.skip(1) + x =~= x);
            assert(b.skip(1) + y =~= y);
        } else {
            assert forall|i: int| 0 <= i < a.skip(1).len() - 1 implies #[trigger] a.skip(1)[i]
                != mark by {
                assert(a[i + 1] != mark);
            }
            assert forall|i: int| 0 <= i < b.skip(1).len() - 1 implies #[trigger] b.skip(1)[i]
                != mark by {
                assert(b[i + 1] != mark);
            }
            lemma_first_code_decides(a.skip(1), b.skip(1), x, y, mark);
            if a.skip(1) == b.skip(1) {
                assert(a =~= seq![a[0]] + a.skip(1));
                assert(b =~= seq![b[0]] + b.skip(1));
                assert(a == b);
            } else if a + x == b + y {
                assert(a.skip(1) + x == b.skip(1) + y);
            }
        }
    }
}

proof fn lemma_marked_skip(name: Seq<u8>, mark: u16)
    requires
        name.len() > 0,
    ensures
        marked(name, mark).skip(1) == marked(name.skip(1), mark),
        marked(name, mark)[0] == name[0] + 5,
{
    assert(marked(name, mark).skip(1) =~= marked(name.skip(1), mark));
}

proof fn lemma_name_order(a: Seq<u8>, b: Seq<u8>, mark: u16)
    requires
        mark < 5,
    ensures
        order::codes_le(marked(a, mark), marked(b, mark)) == name_le(a, b),
        marked(a, mark) == marked(b, mark) ==> a == b,
        ends_once(marked(a, mark), mark),
    decreases a.len(),
{
    reveal_with_fuel(order::codes_le, 2);
    let (x, y) = (marked(a, mark), marked(b, mark));
    if a.len() > 0 {
        lemma_marked_skip(a, mark);
    }
    if b.len() > 0 {
        lemma_marked_skip(b, mark);
    }
    if a.len() > 0 && b.len() > 0 {
        lemma_name_order(a.skip(1), b.skip(1), mark);
        if x == y {
            assert(a =~= seq![a[0]] + a.skip(1));
            assert(b =~= seq![b[0]] + b.skip(1));
        }
    } else if a.len() == 0 && b.len() == 0 {
        assert(a =~= b);
        assert(x.skip(1) =~= Seq::<u16>::empty());
    } else {
        assert(x[0] != y[0]);
    }
}

proof fn lemma_pieces_sound(pieces: Seq<Seq<u8>>, style: PathStyle, leading: bool)
    ensures
        sound(piece_components(pieces, style, leading)),
    decreases pieces.len(),
{
    if pieces.len() > 0 {
        lemma_pieces_sound(pieces.drop_last(), style, leading);
    }
}

proof fn lemma_sound(path: Seq<char>)
    ensures
        sound(components(path)),
{
    let bytes = vstd::utf8::encode_utf8(path);
    let style = path::style_of(bytes);
    lemma_pieces_sound(
        path::pieces(path::body_of(bytes), style),
        style,
        path::keeps_leading_dot(bytes),
    );
}

proof fn lemma_prefix_order(
    k: u16,
    x: Seq<u8>,
    y: Seq<u8>,
    l: u16,
    z: Seq<u8>,
    w: Seq<u8>,
)
    ensures
        ({
            let a = component_code(PathComponent::Prefix(k, x, y));
            let b = component_code(PathComponent::Prefix(l, z, w));
            &&& a == b ==> k == l && x == z && y == w
            &&& order::codes_le(a, b) == prefix_le(k, x, y, l, z, w)
        }),
{
    reveal_with_fuel(order::codes_le, 3);
    let a = component_code(PathComponent::Prefix(k, x, y));
    let b = component_code(PathComponent::Prefix(l, z, w));
    let (a_tail, b_tail) = (marked(x, 1) + marked(y, 0), marked(z, 1) + marked(w, 0));
    assert(a.skip(1).skip(1) =~= a_tail);
    assert(b.skip(1).skip(1) =~= b_tail);
    assert(a.skip(1)[0] == k && b.skip(1)[0] == l);
    lemma_name_order(x, z, 1);
    lemma_name_order(z, x, 1);
    lemma_name_order(y, w, 0);
    lemma_first_code_decides(marked(x, 1), marked(z, 1), marked(y, 0), marked(w, 0), 1);
    if a == b {
        assert(a_tail == b_tail);
        let n = marked(x, 1).len() as int;
        assert(a_tail.skip(n) =~= marked(y, 0));
        assert(b_tail.skip(n) =~= marked(w, 0));
    }
}

proof fn lemma_component_order(a: PathComponent, b: PathComponent)
    requires
        occurs(a),
        occurs(b),
    ensures
        component_code(a) == component_code(b) ==> a == b,
        a != b ==> order::codes_le(component_code(a), component_code(b)) == component_le(a, b),
{
    match (a, b) {
        (PathComponent::Name(x), PathComponent::Name(y)) => {
            lemma_name_order(x, y, 0);
        },
        (PathComponent::Prefix(k, x, y), PathComponent::Prefix(l, z, w)) => {
            lemma_prefix_order(k, x, y, l, z, w);
        },
        _ => {
            if a != b {
                assert(component_code(a)[0] != component_code(b)[0]);
            }
        },
    }
}

proof fn lemma_spelled_order(a: Seq<PathComponent>, b: Seq<PathComponent>)
    requires
        sound(a),
        sound(b),
    ensures
        order::codes_le(spelled(a), spelled(b)) == components_le(a, b),
    decreases a.len(),
{
    if a.len() > 0 && b.len() > 0 {
        lemma_spelled_order(a.skip(1), b.skip(1));
        lemma_component_code(a[0]);
        lemma_component_code(b[0]);
        lemma_component_order(a[0], b[0]);
        lemma_first_code_decides(
            component_code(a[0]),
            component_code(b[0]),
            spelled(a.skip(1)),
            spelled(b.skip(1)),
            0,
        );
    } else if a.len() > 0 {
        lemma_component_code(a[0]);
    }
}

proof fn lemma_spelled_apart(a: Seq<PathComponent>, b: Seq<PathComponent>)
    requires
        sound(a),
        sound(b),
        spelled(a) == spelled(b),
    ensures
        a == b,
    decreases a.len(),
{
    if a.len() > 0 {
        lemma_component_code(a[0]);
    }
    if b.len() > 0 {
        lemma_component_code(b[0]);
    }
    if a.len() > 0 && b.len() > 0 {
        let (x, y) = (spelled(a.skip(1)), spelled(b.skip(1)));
        lemma_component_order(a[0], b[0]);
        lemma_first_code_decides(component_code(a[0]), component_code(b[0]), x, y, 0);
        let n = component_code(a[0]).len() as int;
        assert(spelled(a).skip(n) =~= x);
        assert(spelled(b).skip(n) =~= y);
        lemma_spelled_apart(a.skip(1), b.skip(1));
        assert(a =~= seq![a[0]] + a.skip(1));
        assert(b =~= seq![b[0]] + b.skip(1));
    } else {
        assert(a.len() > 0 ==> spelled(a).len() > 0);
        assert(b.len() > 0 ==> spelled(b).len() > 0);
        assert(a =~= b);
    }
}

} // verus!
