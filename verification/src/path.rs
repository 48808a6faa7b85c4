//! Paths, by the places they name.
//!
//! Two spellings name one place where their components are the same: a slash that is doubled
//! or trails, and a dot that only says "here", do not count. Paths are written with slashes.

use vstd::prelude::*;

use crate::text::{chars_of, joined, same, text_of, texts, without};

verus! {

/// Whether a path starts at the root.
pub open spec fn rooted(path: Seq<char>) -> bool {
    path.len() > 0 && path[0] == '/'
}

/// What stands between the slashes of a path, in order, the empty pieces too.
pub open spec fn pieces(path: Seq<char>) -> Seq<Seq<char>>
    decreases path.len(),
{
    if path.len() == 0 {
        seq![Seq::empty()]
    } else {
        let before = pieces(path.drop_last());
        if path.last() == '/' {
            before.push(Seq::empty())
        } else {
            before.drop_last().push(before.last().push(path.last()))
        }
    }
}

/// Whether a piece is a component. An empty one is none, and a dot is one only where the
/// path starts with it.
pub open spec fn counts(piece: Seq<char>, first: bool) -> bool {
    piece.len() > 0 && (first || piece != "."@)
}

/// Those of `pieces` that are components, in order.
pub open spec fn counted(pieces: Seq<Seq<char>>) -> Seq<Seq<char>>
    decreases pieces.len(),
{
    if pieces.len() == 0 {
        pieces
    } else if counts(pieces.last(), pieces.len() == 1) {
        counted(pieces.drop_last()).push(pieces.last())
    } else {
        counted(pieces.drop_last())
    }
}

/// The components of a path.
pub open spec fn components(path: Seq<char>) -> Seq<Seq<char>> {
    counted(pieces(path))
}

/// Components with a slash between each two.
pub open spec fn with_slashes(components: Seq<Seq<char>>) -> Seq<char>
    decreases components.len(),
{
    if components.len() == 0 {
        Seq::empty()
    } else if components.len() == 1 {
        components[0]
    } else {
        with_slashes(components.drop_last()) + seq!['/'] + components.last()
    }
}

/// The plainest spelling of the place a path names.
pub open spec fn normal(path: Seq<char>) -> Seq<char> {
    if rooted(path) {
        seq!['/'] + with_slashes(components(path))
    } else {
        with_slashes(components(path))
    }
}

/// The places that a list of paths names.
pub open spec fn places(list: Seq<String>) -> Seq<Seq<char>> {
    list.map_values(|path: String| normal(path@))
}

proof fn there_is_a_piece(path: Seq<char>)
    ensures
        pieces(path).len() > 0,
    decreases path.len(),
{
    if path.len() > 0 {
        there_is_a_piece(path.drop_last());
    }
}

/// The components of a path.
pub fn components_of(path: &str) -> (list: Vec<String>)
    ensures
        texts(list@) == components(path@),
{
    let chars = chars_of(path);
    let mut list: Vec<String> = Vec::new();
    let mut from: usize = 0;
    let mut at: usize = 0;
    let mut first = true;
    proof {
        assert(path@.take(0) =~= Seq::<char>::empty());
        assert(pieces(path@.take(0)).drop_last() =~= Seq::<Seq<char>>::empty());
        assert(texts(list@) =~= Seq::<Seq<char>>::empty());
        assert(path@.subrange(0, 0) =~= Seq::<char>::empty());
    }
    while at < chars.len()
        invariant
            from <= at <= chars@.len(),
            chars@ == path@,
            pieces(path@.take(at as int)).len() > 0,
            first == (pieces(path@.take(at as int)).len() == 1),
            pieces(path@.take(at as int)).last() == path@.subrange(from as int, at as int),
            texts(list@) == counted(pieces(path@.take(at as int)).drop_last()),
        decreases chars@.len() - at,
    {
        let ghost before = pieces(path@.take(at as int));
        let ghost after = pieces(path@.take(at as int + 1));
        let c = chars[at];
        proof {
            assert(path@.take(at as int + 1).drop_last() =~= path@.take(at as int));
            assert(path@.take(at as int + 1).last() == c);
        }
        if c == '/' {
            proof {
                assert(after.drop_last() =~= before);
                assert(path@.subrange(at as int + 1, at as int + 1) =~= Seq::<char>::empty());
            }
            keep_piece(&mut list, &chars, from, at, first, Ghost(before));
            from = at + 1;
            first = false;
        } else {
            proof {
                assert(after.drop_last() =~= before.drop_last());
                assert(path@.subrange(from as int, at as int + 1) =~= path@.subrange(
                    from as int,
                    at as int,
                ).push(c));
            }
        }
        at = at + 1;
    }
    proof {
        assert(path@.take(path@.len() as int) =~= path@);
    }
    keep_piece(&mut list, &chars, from, at, first, Ghost(pieces(path@)));
    list
}

fn keep_piece(
    list: &mut Vec<String>,
    chars: &Vec<char>,
    from: usize,
    to: usize,
    first: bool,
    all: Ghost<Seq<Seq<char>>>,
)
    requires
        from <= to <= chars@.len(),
        all@.len() > 0,
        first == (all@.len() == 1),
        all@.last() == chars@.subrange(from as int, to as int),
        texts(old(list)@) == counted(all@.drop_last()),
    ensures
        texts(final(list)@) == counted(all@),
{
    let piece = text_of(chars, from, to);
    let ghost before = list@;
    if from < to && (first || !same(piece.as_str(), ".")) {
        let ghost read = piece@;
        list.push(piece);
        proof {
            assert(texts(list@) =~= texts(before).push(read));
        }
    }
}

/// The plainest spelling of the place a path names.
pub fn normal_of(path: &str) -> (plain: String)
    ensures
        plain@ == normal(path@),
{
    let list = components_of(path);
    let chars = chars_of(path);
    let root = chars.len() > 0 && chars[0] == '/';
    let ghost all = components(path@);
    let mut plain = String::new();
    let mut at: usize = 0;
    proof {
        assert(plain@ =~= with_slashes(all.take(0)));
    }
    while at < list.len()
        invariant
            at <= list@.len(),
            all == texts(list@),
            plain@ == with_slashes(all.take(at as int)),
        decreases list@.len() - at,
    {
        proof {
            assert(all.take(at as int + 1).drop_last() =~= all.take(at as int));
            assert(all.take(at as int + 1).last() == list@[at as int]@);
        }
        if at > 0 {
            plain.push('/');
            proof {
                assert(with_slashes(all.take(at as int)).push('/') =~= with_slashes(
                    all.take(at as int),
                ) + seq!['/']);
            }
        } else {
            proof {
                assert(with_slashes(all.take(0)) + list@[0]@ =~= list@[0]@);
                assert(all.take(1)[0] == list@[0]@);
            }
        }
        plain = joined(plain.as_str(), list[at].as_str());
        at = at + 1;
    }
    proof {
        assert(all.take(all.len() as int) =~= all);
    }
    if root {
        proof {
            reveal_strlit("/");
            assert("/"@ =~= seq!['/']);
        }
        joined("/", plain.as_str())
    } else {
        plain
    }
}

/// Whether two paths name one place.
pub fn same_path(a: &str, b: &str) -> (answer: bool)
    ensures
        answer == (normal(a@) == normal(b@)),
{
    same(normal_of(a).as_str(), normal_of(b).as_str())
}

/// Whether a list holds a path that names the place `path` does.
pub fn holds_path(list: &Vec<String>, path: &str) -> (answer: bool)
    ensures
        answer == places(list@).contains(normal(path@)),
{
    let mut at: usize = 0;
    while at < list.len()
        invariant
            at <= list@.len(),
            forall|k: int| 0 <= k < at ==> places(list@)[k] != normal(path@),
        decreases list@.len() - at,
    {
        if same_path(list[at].as_str(), path) {
            proof {
                assert(places(list@)[at as int] == normal(path@));
            }
            return true;
        }
        at = at + 1;
    }
    false
}

/// Takes every path that names the place `path` does out of `list`.
pub fn drop_path(list: &mut Vec<String>, path: &str)
    ensures
        places(final(list)@) == without(places(old(list)@), normal(path@)),
{
    let ghost all = places(list@);
    let mut kept: Vec<String> = Vec::new();
    let mut at: usize = 0;
    proof {
        assert(places(kept@) =~= all.take(0));
    }
    while at < list.len()
        invariant
            at <= list@.len(),
            *list == *old(list),
            all == places(list@),
            places(kept@) == without(all.take(at as int), normal(path@)),
        decreases list@.len() - at,
    {
        let ghost before = kept@;
        if !same_path(list[at].as_str(), path) {
            kept.push(list[at].clone());
            proof {
                assert(places(kept@) =~= places(before).push(all[at as int]));
            }
        }
        at = at + 1;
        proof {
            assert(all.take(at as int).drop_last() =~= all.take(at - 1));
        }
    }
    proof {
        assert(all.take(all.len() as int) =~= all);
    }
    *list = kept;
}

/// A path and another inside it: one slash between them where the first has none of its own,
/// and none where there is no first.
pub open spec fn inside(base: Seq<char>, name: Seq<char>) -> Seq<char> {
    if base.len() == 0 || base.last() == '/' {
        base + name
    } else {
        base + seq!['/'] + name
    }
}

/// A relative path inside another.
pub fn join(base: &str, name: &str) -> (path: String)
    ensures
        path@ == inside(base@, name@),
{
    let chars = chars_of(base);
    if chars.len() == 0 || chars[chars.len() - 1] == '/' {
        return joined(base, name);
    }
    proof {
        reveal_strlit("/");
        assert("/"@ =~= seq!['/']);
    }
    joined(joined(base, "/").as_str(), name)
}

// ----- laws ----------------------------------------------------------------------------

/// Whether a component can be read back: it holds no slash and is not empty.
spec fn solid(component: Seq<char>) -> bool {
    component.len() > 0 && forall|i: int| 0 <= i < component.len() ==> component[i] != '/'
}

proof fn pieces_hold_no_slash(path: Seq<char>, k: int)
    requires
        0 <= k < pieces(path).len(),
    ensures
        forall|i: int| 0 <= i < pieces(path)[k].len() ==> pieces(path)[k][i] != '/',
    decreases path.len(),
{
    if path.len() > 0 {
        let before = pieces(path.drop_last());
        there_is_a_piece(path.drop_last());
        if path.last() == '/' {
            if k < before.len() {
                pieces_hold_no_slash(path.drop_last(), k);
            }
        } else {
            pieces_hold_no_slash(path.drop_last(), k);
        }
    }
}

/// What holds of the components of every path: none is empty or holds a slash, and none but
/// the first is a dot.
spec fn plain(list: Seq<Seq<char>>) -> bool {
    &&& forall|k: int| 0 <= k < list.len() ==> solid(#[trigger] list[k])
    &&& forall|k: int| 0 < k < list.len() ==> #[trigger] list[k] != "."@
}

proof fn counted_are_plain(all: Seq<Seq<char>>)
    requires
        forall|k: int, i: int| 0 <= k < all.len() && 0 <= i < all[k].len() ==> all[k][i] != '/',
    ensures
        plain(counted(all)),
        counted(all).len() > 0 && counted(all)[0] == "."@ ==> all[0] == "."@,
    decreases all.len(),
{
    if all.len() > 0 {
        let rest = all.drop_last();
        assert forall|k: int, i: int| 0 <= k < rest.len() && 0 <= i < rest[k].len() implies rest[k][i]
            != '/' by {
            assert(all[k][i] != '/');
        }
        counted_are_plain(rest);
        let before = counted(rest);
        let now = counted(all);
        if counts(all.last(), all.len() == 1) {
            assert(solid(all.last())) by {
                assert forall|i: int| 0 <= i < all.last().len() implies all.last()[i] != '/' by {
                    assert(all[all.len() - 1][i] != '/');
                }
            }
            assert forall|k: int| 0 <= k < now.len() implies solid(#[trigger] now[k]) by {
                if k < before.len() {
                    assert(now[k] == before[k]);
                }
            }
            assert forall|k: int| 0 < k < now.len() implies #[trigger] now[k] != "."@ by {
                if k < before.len() {
                    assert(now[k] == before[k]);
                } else {
                    assert(all.len() > 1) by {
                        assert(before.len() > 0);
                        assert(rest.len() > 0);
                    }
                }
            }
        }
    }
}

proof fn a_component_more(text: Seq<char>, component: Seq<char>)
    requires
        forall|i: int| 0 <= i < component.len() ==> component[i] != '/',
    ensures
        pieces(text + seq!['/'] + component) == pieces(text).push(component),
    decreases component.len(),
{
    let all = text + seq!['/'] + component;
    if component.len() == 0 {
        assert(all.drop_last() =~= text);
        assert(all.last() == '/');
        assert(component =~= Seq::<char>::empty());
    } else {
        let rest = component.drop_last();
        a_component_more(text, rest);
        assert(all.drop_last() =~= text + seq!['/'] + rest);
        assert(all.last() == component.last());
        assert(rest.push(component.last()) =~= component);
        assert(pieces(text).push(rest).drop_last() =~= pieces(text));
    }
}

proof fn one_component(component: Seq<char>)
    requires
        forall|i: int| 0 <= i < component.len() ==> component[i] != '/',
    ensures
        pieces(component) == seq![component],
    decreases component.len(),
{
    if component.len() == 0 {
        assert(component =~= Seq::<char>::empty());
    } else {
        let rest = component.drop_last();
        one_component(rest);
        assert(rest.push(component.last()) =~= component);
        assert(seq![rest].drop_last().push(component) =~= seq![component]);
    }
}

proof fn slashes_part_components(list: Seq<Seq<char>>)
    requires
        list.len() > 0,
        forall|k: int| 0 <= k < list.len() ==> solid(#[trigger] list[k]),
    ensures
        pieces(with_slashes(list)) == list,
        with_slashes(list).len() > 0,
        with_slashes(list)[0] == list[0][0],
    decreases list.len(),
{
    if list.len() == 1 {
        assert(solid(list[0]));
        one_component(list[0]);
        assert(seq![list[0]] =~= list);
    } else {
        let rest = list.drop_last();
        assert forall|k: int| 0 <= k < rest.len() implies solid(#[trigger] rest[k]) by {
            assert(solid(list[k]));
        }
        slashes_part_components(rest);
        assert(solid(list[list.len() - 1]));
        a_component_more(with_slashes(rest), list.last());
        assert(rest.push(list.last()) =~= list);
    }
}

proof fn the_root_is_an_empty_piece(rest: Seq<char>)
    ensures
        pieces(seq!['/'] + rest) == seq![Seq::<char>::empty()] + pieces(rest),
    decreases rest.len(),
{
    let all = seq!['/'] + rest;
    let head = seq![Seq::<char>::empty()];
    if rest.len() == 0 {
        assert(all.drop_last() =~= Seq::<char>::empty());
        assert(all.last() == '/');
        assert(rest =~= Seq::<char>::empty());
        assert(pieces(all) =~= head + pieces(rest));
    } else {
        let before = rest.drop_last();
        the_root_is_an_empty_piece(before);
        there_is_a_piece(before);
        assert(all.drop_last() =~= seq!['/'] + before);
        assert(all.last() == rest.last());
        assert(pieces(all) =~= head + pieces(rest));
    }
}

proof fn plain_components_count(list: Seq<Seq<char>>)
    requires
        plain(list),
    ensures
        counted(list) == list,
        list.len() > 0 && list[0] != "."@ ==> counted(seq![Seq::<char>::empty()] + list) == list,
    decreases list.len(),
{
    let head = seq![Seq::<char>::empty()];
    assert(head.drop_last() =~= Seq::<Seq<char>>::empty());
    assert(counted(head.drop_last()) =~= Seq::<Seq<char>>::empty());
    assert(counted(head) =~= Seq::<Seq<char>>::empty());
    if list.len() > 0 {
        let rest = list.drop_last();
        assert(plain(rest)) by {
            assert forall|k: int| 0 <= k < rest.len() implies solid(#[trigger] rest[k]) by {
                assert(solid(list[k]));
            }
            assert forall|k: int| 0 < k < rest.len() implies #[trigger] rest[k] != "."@ by {
                assert(list[k] != "."@);
            }
        }
        plain_components_count(rest);
        assert(solid(list[list.len() - 1]));
        assert(rest.push(list.last()) =~= list);
        if list[0] != "."@ {
            assert((head + list).drop_last() =~= head + rest);
            assert((head + list).last() == list.last());
            if rest.len() == 0 {
                assert(head + rest =~= head);
            } else {
                assert(rest[0] == list[0]);
            }
            assert(list[list.len() - 1] != "."@);
        }
    }
}

proof fn components_are_plain(path: Seq<char>)
    ensures
        plain(components(path)),
        rooted(path) && components(path).len() > 0 ==> components(path)[0] != "."@,
{
    let all = pieces(path);
    assert forall|k: int, i: int| 0 <= k < all.len() && 0 <= i < all[k].len() implies all[k][i]
        != '/' by {
        pieces_hold_no_slash(path, k);
    }
    counted_are_plain(all);
    if rooted(path) {
        the_root_is_an_empty_piece(path.skip(1));
        assert(seq!['/'] + path.skip(1) =~= path);
        assert(all[0] =~= Seq::<char>::empty());
        reveal_strlit(".");
    }
}

/// The last component of a path is what stands behind its last slash, where that is a name.
pub proof fn the_last_component_stands_behind_the_last_slash(dir: Seq<char>, name: Seq<char>)
    requires
        name.len() > 0,
        forall|i: int| 0 <= i < name.len() ==> name[i] != '/',
        name != "."@,
    ensures
        components(dir + seq!['/'] + name) == components(dir).push(name),
{
    a_component_more(dir, name);
    there_is_a_piece(dir);
    assert(pieces(dir).push(name).drop_last() =~= pieces(dir));
}

/// A path's plainest spelling names the same place: it starts at the root where the path
/// does, and has the same components.
pub proof fn the_plainest_spelling_names_the_place(path: Seq<char>)
    ensures
        rooted(normal(path)) == rooted(path),
        components(normal(path)) == components(path),
        normal(normal(path)) == normal(path),
{
    let list = components(path);
    components_are_plain(path);
    plain_components_count(list);
    if list.len() > 0 {
        slashes_part_components(list);
        assert(solid(list[0]));
    }
    if rooted(path) {
        the_root_is_an_empty_piece(with_slashes(list));
        if list.len() == 0 {
            let two = seq![Seq::<char>::empty(), Seq::<char>::empty()];
            assert(seq![Seq::<char>::empty()] + pieces(Seq::empty()) =~= two);
            assert(two.drop_last().drop_last() =~= Seq::<Seq<char>>::empty());
            reveal_with_fuel(counted, 3);
            assert(counted(two) =~= list);
        }
    } else if list.len() == 0 {
        let one = seq![Seq::<char>::empty()];
        assert(one.drop_last() =~= Seq::<Seq<char>>::empty());
        assert(counted(one.drop_last()) =~= list);
        assert(counted(one) =~= list);
    }
}

/// Two spellings name one place exactly where both start at the root or neither does, and
/// their components are the same.
pub proof fn a_place_is_its_components(a: Seq<char>, b: Seq<char>)
    ensures
        normal(a) == normal(b) <==> rooted(a) == rooted(b) && components(a) == components(b),
{
    the_plainest_spelling_names_the_place(a);
    the_plainest_spelling_names_the_place(b);
}

/// A slash behind a path, and a dot behind that slash, change no place; a name behind it is one
/// component more, two dots as well as any other.
pub proof fn a_slash_and_a_dot_change_no_place(dir: Seq<char>, name: Seq<char>)
    requires
        dir.len() > 0,
        name.len() > 0,
        !name.contains('/'),
        name != seq!['.'],
    ensures
        normal(dir + seq!['/']) == normal(dir),
        normal(dir + seq!['/', '.']) == normal(dir),
        normal(dir + seq!['/'] + name) == (if normal(dir) == seq!['/'] {
            seq!['/'] + name
        } else {
            normal(dir) + seq!['/'] + name
        }),
        normal(name) == name,
        normal(seq!['/'] + name) == seq!['/'] + name,
        normal(seq!['/']) == seq!['/'],
        normal(seq!['.']) == seq!['.'],
        normal(Seq::empty()) == Seq::<char>::empty(),
{
    reveal_strlit(".");
    assert("."@ =~= seq!['.']);
    let none = Seq::<char>::empty();
    let all = pieces(dir);
    there_is_a_piece(dir);
    // one slash more
    let slashed = dir + seq!['/'];
    assert(slashed.drop_last() =~= dir);
    assert(pieces(slashed) == all.push(none));
    assert(all.push(none).drop_last() =~= all);
    assert(components(slashed) == components(dir));
    assert(slashed[0] == dir[0]);
    // and a dot behind it
    let dotted = dir + seq!['/', '.'];
    assert(dotted.drop_last() =~= slashed);
    assert(all.push(none).drop_last().push(none.push('.')) =~= all.push(seq!['.']));
    assert(pieces(dotted) == all.push(seq!['.']));
    assert(all.push(seq!['.']).drop_last() =~= all);
    assert(components(dotted) == components(dir));
    assert(dotted[0] == dir[0]);
    // and a name behind it
    assert forall|i: int| 0 <= i < name.len() implies name[i] != '/' by {
        assert(name.contains(name[i]));
    }
    the_last_component_stands_behind_the_last_slash(dir, name);
    let list = components(dir);
    let longer = dir + seq!['/'] + name;
    assert(longer[0] == dir[0]);
    assert(list.push(name).drop_last() =~= list);
    components_are_plain(dir);
    if list.len() > 0 {
        slashes_part_components(list);
        assert(solid(list[0]));
        assert(with_slashes(list).len() > 0) by {
            if with_slashes(list).len() == 0 {
                assert(with_slashes(list) =~= none);
                assert(pieces(none) =~= seq![none]);
                assert(list[0] == none);
            }
        }
        if rooted(dir) {
            assert(normal(dir).len() > 1);
        } else {
            assert(normal(dir)[0] != '/') by {
                the_plainest_spelling_names_the_place(dir);
            }
        }
        assert(normal(longer) =~= normal(dir) + seq!['/'] + name);
    } else {
        if !rooted(dir) {
            the_first_piece_is_a_component(dir);
        }
        assert(normal(dir) =~= seq!['/']);
        assert(normal(longer) =~= seq!['/'] + name);
    }
    // alone
    reveal_with_fuel(counted, 3);
    one_component(name);
    assert(components(name) =~= seq![name]) by {
        let one = seq![name];
        assert(one.drop_last() =~= Seq::<Seq<char>>::empty());
    }
    assert(normal(name) =~= name);
    let two = seq![none];
    assert(pieces(none) =~= two);
    assert(two.drop_last() =~= Seq::<Seq<char>>::empty());
    assert(components(none) =~= Seq::<Seq<char>>::empty());
    assert(normal(none) =~= none);
    the_last_component_stands_behind_the_last_slash(none, name);
    assert(none + seq!['/'] + name =~= seq!['/'] + name);
    assert(components(none).push(name) =~= seq![name]);
    assert(normal(seq!['/'] + name) =~= seq!['/'] + name);
    let root = seq!['/'];
    assert(root.drop_last() =~= none);
    assert(pieces(root) =~= seq![none, none]);
    assert(seq![none, none].drop_last() =~= two);
    assert(components(root) =~= Seq::<Seq<char>>::empty());
    assert(normal(root) =~= root);
    let dot = seq!['.'];
    assert forall|i: int| 0 <= i < dot.len() implies dot[i] != '/' by {
    }
    one_component(dot);
    assert(seq![dot].drop_last() =~= Seq::<Seq<char>>::empty());
    assert(components(dot) =~= seq![dot]);
    assert(normal(dot) =~= dot);
}

proof fn the_first_piece_is_a_component(path: Seq<char>)
    requires
        path.len() > 0,
        path[0] != '/',
    ensures
        pieces(path).len() > 0,
        pieces(path)[0].len() > 0,
        components(path).len() > 0,
    decreases path.len(),
{
    let none = Seq::<char>::empty();
    let before = path.drop_last();
    there_is_a_piece(before);
    if path.len() == 1 {
        assert(before =~= none);
        assert(pieces(path) =~= seq![none.push(path.last())]);
    } else {
        assert(before[0] == path[0]);
        the_first_piece_is_a_component(before);
    }
    first_counts(pieces(path));
}

proof fn first_counts(list: Seq<Seq<char>>)
    requires
        list.len() > 0,
        list[0].len() > 0,
    ensures
        counted(list).len() > 0,
    decreases list.len(),
{
    if list.len() > 1 {
        first_counts(list.drop_last());
    }
}

/// A file inside a directory: one slash stands between the two, whether or not the directory
/// was written with one behind it; inside nothing, the name stands alone.
pub proof fn one_slash_stands_between(base: Seq<char>, name: Seq<char>)
    requires
        base.len() > 0,
        base.last() != '/',
    ensures
        inside(base, name) == base + seq!['/'] + name,
        inside(base + seq!['/'], name) == base + seq!['/'] + name,
        inside(Seq::empty(), name) == name,
{
    assert(Seq::<char>::empty() + name =~= name);
}

/// The root has no component, and neither has nothing.
pub proof fn the_root_has_no_components()
    ensures
        components(seq!['/']).len() == 0,
        components(Seq::empty()).len() == 0,
{
    reveal_with_fuel(counted, 3);
    let none = Seq::<char>::empty();
    let root = seq!['/'];
    assert(pieces(none) =~= seq![none]);
    assert(seq![none].drop_last() =~= Seq::<Seq<char>>::empty());
    assert(root.drop_last() =~= none);
    assert(pieces(root) =~= seq![none, none]);
    assert(seq![none, none].drop_last() =~= seq![none]);
}

/// The places of a list of paths are those of each path, in order.
pub proof fn a_list_of_paths_is_a_list_of_places(list: Seq<String>, k: int)
    ensures
        places(list).len() == list.len(),
        0 <= k < list.len() ==> places(list)[k] == normal(list[k]@),
{
}

} // verus!
