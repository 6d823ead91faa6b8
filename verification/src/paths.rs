//! Paths as texts whose components are separated by `/`.

use vstd::prelude::*;
use vstd::string::*;
use crate::seqs::{filter_comes_from, filter_none, filter_step};
use crate::text::{
    chars_of, join, joined, joined_pieces_stand_one_after_another, same_text, same_texts, split,
    split_at_each, split_nonempty, splitting_and_joining_is_the_text, text_of, texts, texts_empty,
    texts_push,
};

verus! {

/// A piece between separators that names something.
pub open spec fn names_something() -> spec_fn(Seq<char>) -> bool {
    |piece: Seq<char>| piece.len() > 0 && piece != "."@
}

/// What a path starts with besides names: its root, or the current folder.
pub open spec fn path_start(path: Seq<char>) -> Seq<Seq<char>> {
    if path.len() > 0 && path[0] == '/' {
        seq!["/"@]
    } else if split(path, '/')[0] == "."@ {
        seq!["."@]
    } else {
        Seq::empty()
    }
}

/// The components of a path. Repeated separators, one at the end, and `.` but at the start do not
/// count.
pub open spec fn components(path: Seq<char>) -> Seq<Seq<char>> {
    path_start(path) + split(path, '/').filter(names_something())
}

/// The pieces up to the last one that names something.
pub open spec fn up_to_last_name(pieces: Seq<Seq<char>>) -> Seq<Seq<char>>
    decreases pieces.len(),
{
    if pieces.len() == 0 || names_something()(pieces.last()) {
        pieces
    } else {
        up_to_last_name(pieces.drop_last())
    }
}

/// The pieces from the one that names something after `n` others that do.
pub open spec fn from_name(pieces: Seq<Seq<char>>, n: int) -> Seq<Seq<char>>
    decreases pieces.len(),
{
    if pieces.len() == 0 {
        pieces
    } else if !names_something()(pieces[0]) {
        from_name(pieces.drop_first(), n)
    } else if n <= 0 {
        pieces
    } else {
        from_name(pieces.drop_first(), n - 1)
    }
}

/// The text of a path up to the last of these pieces of it that names something.
pub open spec fn text_up_to(path: Seq<char>, pieces: Seq<Seq<char>>) -> Seq<char> {
    let named = up_to_last_name(pieces);
    if named.len() > 0 {
        join(named, "/"@)
    } else if path_start(path).len() > 0 {
        path_start(path)[0]
    } else {
        Seq::empty()
    }
}

/// `path` is `dir` or lies in it.
pub open spec fn lies_in(path: Seq<char>, dir: Seq<char>) -> bool {
    components(dir).is_prefix_of(components(path))
}

/// The paths have the same components, so that they name the same.
pub open spec fn same_path(a: Seq<char>, b: Seq<char>) -> bool {
    components(a) == components(b)
}

/// The list names this path.
pub open spec fn names_path(list: Seq<Seq<char>>, path: Seq<char>) -> bool {
    exists|k: int| 0 <= k < list.len() && same_path(#[trigger] list[k], path)
}

/// The name at the end of a path.
pub open spec fn name_of(path: Seq<char>) -> Option<Seq<char>> {
    let parts = components(path);
    if parts.len() == 0 || parts.last() == "/"@ || parts.last() == "."@ || parts.last() == ".."@ {
        None
    } else {
        Some(parts.last())
    }
}

/// The folder that holds what a path names: the text of the path without its last component.
pub open spec fn folder_of(path: Seq<char>) -> Option<Seq<char>> {
    let parts = components(path);
    let named = up_to_last_name(split(path, '/'));
    if parts.len() == 0 || parts.last() == "/"@ {
        None
    } else if named.len() == 0 {
        Some(Seq::empty())
    } else {
        Some(text_up_to(path, named.drop_last()))
    }
}

/// A path, the folder that holds what it names, the folder that holds that one, and so on.
pub open spec fn ancestors(path: Seq<char>) -> Seq<Seq<char>>
    decreases components(path).len(),
{
    match folder_of(path) {
        Some(folder) => {
            proof {
                paths_lie_in_folders(path);
                folders_have_all_but_the_last_component(path);
            }
            seq![path] + ancestors(folder)
        },
        None => seq![path],
    }
}

/// A path as seen from a folder it lies in: the rest of its text. The whole path where it does not.
pub open spec fn seen_from(path: Seq<char>, folder: Seq<char>) -> Seq<char> {
    let pieces = split(path, '/');
    if !lies_in(path, folder) {
        path
    } else if components(folder).len() == 0 {
        text_up_to(path, pieces)
    } else {
        join(up_to_last_name(from_name(pieces, components(folder).len() - path_start(path).len())), "/"@)
    }
}

/// Where the last dot of a name stands; -1 where it has none.
pub open spec fn last_dot(name: Seq<char>) -> int
    decreases name.len(),
{
    if name.len() == 0 {
        -1
    } else if name.last() == '.' {
        name.len() - 1
    } else {
        last_dot(name.drop_last())
    }
}

/// A name without its extension. A dot in front starts no extension.
pub open spec fn stem(name: Seq<char>) -> Seq<char> {
    if last_dot(name) > 0 {
        name.take(last_dot(name))
    } else {
        name
    }
}

/// The extension of a name.
pub open spec fn extension(name: Seq<char>) -> Option<Seq<char>> {
    if last_dot(name) > 0 {
        Some(name.skip(last_dot(name) + 1))
    } else {
        None
    }
}

/// A name in a folder.
pub open spec fn in_folder(folder: Seq<char>, name: Seq<char>) -> Seq<char> {
    if folder.len() == 0 {
        name
    } else if folder.last() == '/' {
        folder + name
    } else {
        folder + "/"@ + name
    }
}

/// A text with each `c` replaced.
pub open spec fn replaced(s: Seq<char>, c: char, with: Seq<char>) -> Seq<char>
    decreases s.len(),
{
    if s.len() == 0 {
        Seq::empty()
    } else if s.last() == c {
        replaced(s.drop_last(), c, with) + with
    } else {
        replaced(s.drop_last(), c, with).push(s.last())
    }
}

/// A character that is not in a text is not in it either once another one was replaced by a text
/// without it; and a character that was replaced by a text without it is gone.
pub proof fn replaced_is_rid_of(s: Seq<char>, c: char, with: Seq<char>, unwanted: char)
    requires
        !with.contains(unwanted),
        unwanted == c || !s.contains(unwanted),
    ensures
        !replaced(s, c, with).contains(unwanted),
    decreases s.len(),
{
    if s.len() > 0 {
        let rest = s.drop_last();
        assert forall|i: int| 0 <= i < rest.len() implies #[trigger] rest[i] == s[i] by {}
        if rest.contains(unwanted) && unwanted != c {
            let i = choose|i: int| 0 <= i < rest.len() && rest[i] == unwanted;
            assert(s[i] == unwanted);
        }
        replaced_is_rid_of(rest, c, with, unwanted);
        let before = replaced(rest, c, with);
        let after = replaced(s, c, with);
        if after.contains(unwanted) {
            let i = choose|i: int| 0 <= i < after.len() && after[i] == unwanted;
            if i < before.len() {
                assert(before[i] == unwanted);
            } else if s.last() == c {
                assert(with[i - before.len()] == unwanted);
            } else {
                assert(s[s.len() - 1] == unwanted);
            }
        }
    }
}

proof fn pieces_hold_no_separator(s: Seq<char>, k: int)
    requires
        0 <= k < split(s, '/').len(),
    ensures
        !split(s, '/')[k].contains('/'),
    decreases s.len(),
{
    if s.len() > 0 {
        let before = split(s.drop_last(), '/');
        split_nonempty(s.drop_last(), '/');
        if k < before.len() {
            pieces_hold_no_separator(s.drop_last(), k);
        }
        if s.last() != '/' && k == before.len() - 1 {
            let grown = before.last().push(s.last());
            if grown.contains('/') {
                let i = choose|i: int| 0 <= i < grown.len() && grown[i] == '/';
                assert(before.last()[i] == '/');
            }
        }
    }
}

proof fn one_more_piece(a: Seq<char>, b: Seq<char>)
    requires
        !b.contains('/'),
    ensures
        split(a + "/"@ + b, '/') == split(a, '/').push(b),
    decreases b.len(),
{
    reveal_strlit("/");
    let s = a + "/"@ + b;
    if b.len() == 0 {
        assert(s.drop_last() =~= a);
        assert(b =~= Seq::<char>::empty());
    } else {
        let c = b.drop_last();
        if c.contains('/') {
            let i = choose|i: int| 0 <= i < c.len() && c[i] == '/';
            assert(b[i] == '/');
        }
        assert(b.last() != '/') by {
            assert(b[b.len() - 1] == b.last());
        }
        one_more_piece(a, c);
        assert(s.drop_last() =~= a + "/"@ + c);
        assert(c.push(b.last()) =~= b);
        assert(split(a, '/').push(c).drop_last() =~= split(a, '/'));
    }
}

proof fn joined_pieces_come_apart(pieces: Seq<Seq<char>>)
    requires
        pieces.len() > 0,
        forall|k: int| 0 <= k < pieces.len() ==> !(#[trigger] pieces[k]).contains('/'),
    ensures
        split(join(pieces, "/"@), '/') == pieces,
    decreases pieces.len(),
{
    if pieces.len() == 1 {
        let piece = pieces[0];
        reveal_strlit("/");
        a_piece_stays_whole(piece);
        assert(seq![piece] =~= pieces);
    } else {
        joined_pieces_come_apart(pieces.drop_last());
        one_more_piece(join(pieces.drop_last(), "/"@), pieces.last());
        assert(pieces.drop_last().push(pieces.last()) =~= pieces);
    }
}

proof fn a_piece_stays_whole(piece: Seq<char>)
    requires
        !piece.contains('/'),
    ensures
        split(piece, '/') == seq![piece],
    decreases piece.len(),
{
    if piece.len() == 0 {
        assert(piece =~= Seq::<char>::empty());
    } else {
        let c = piece.drop_last();
        if c.contains('/') {
            let i = choose|i: int| 0 <= i < c.len() && c[i] == '/';
            assert(piece[i] == '/');
        }
        assert(piece.last() != '/') by {
            assert(piece[piece.len() - 1] == piece.last());
        }
        a_piece_stays_whole(c);
        assert(c.push(piece.last()) =~= piece);
        assert(seq![c].drop_last().push(piece) =~= seq![piece]);
    }
}

/// The first piece of a path is empty where the path starts with its root.
proof fn rooted_paths_start_empty(s: Seq<char>)
    requires
        s.len() > 0,
    ensures
        split(s, '/')[0].len() == 0 <==> s[0] == '/',
        s[0] == '/' ==> split(s, '/').len() > 1,
    decreases s.len(),
{
    let rest = s.drop_last();
    split_nonempty(rest, '/');
    if rest.len() > 0 {
        rooted_paths_start_empty(rest);
        assert(rest[0] == s[0]);
    } else {
        assert(split(rest, '/') =~= seq![Seq::<char>::empty()]);
    }
}

proof fn last_name_counts_all(pieces: Seq<Seq<char>>)
    ensures
        up_to_last_name(pieces).filter(names_something()) == pieces.filter(names_something()),
        up_to_last_name(pieces) == pieces.take(up_to_last_name(pieces).len() as int),
        up_to_last_name(pieces).len() <= pieces.len(),
        up_to_last_name(pieces).len() > 0 ==> names_something()(up_to_last_name(pieces).last()),
    decreases pieces.len(),
{
    reveal(Seq::filter);
    if pieces.len() == 0 || names_something()(pieces.last()) {
        assert(pieces.take(pieces.len() as int) =~= pieces);
    } else {
        let rest = pieces.drop_last();
        last_name_counts_all(rest);
        let n = up_to_last_name(rest).len() as int;
        assert(rest.take(n) =~= pieces.take(n));
    }
}

/// The text of a path up to some piece of it has the components of the path up to there.
proof fn text_up_to_has_the_components(path: Seq<char>, n: int)
    requires
        0 <= n <= split(path, '/').len(),
    ensures
        ({
            let pieces = split(path, '/').take(n);
            components(text_up_to(path, pieces)) == path_start(path) + pieces.filter(names_something())
        }),
{
    let pieces = split(path, '/').take(n);
    let named = up_to_last_name(pieces);
    last_name_counts_all(pieces);
    reveal_strlit("/");
    reveal_strlit(".");
    if named.len() > 0 {
        assert forall|k: int| 0 <= k < named.len() implies !(#[trigger] named[k]).contains('/') by {
            pieces_hold_no_separator(path, k);
            assert(named[k] == split(path, '/')[k]);
        }
        let text = join(named, "/"@);
        joined_pieces_come_apart(named);
        assert(named[0] == split(path, '/')[0]);
        if text.len() == 0 {
            assert(split(text, '/') =~= seq![Seq::<char>::empty()]);
            assert(named.last().len() == 0);
        }
        rooted_paths_start_empty(text);
        if path.len() == 0 {
            assert(split(path, '/') =~= seq![Seq::<char>::empty()]);
            assert(named.last() == split(path, '/')[named.len() - 1]);
        }
        rooted_paths_start_empty(path);
        assert(path_start(text) == path_start(path));
    } else {
        let none = pieces.filter(names_something());
        assert(none =~= Seq::<Seq<char>>::empty()) by {
            reveal(Seq::filter);
        }
        assert(path_start(path) + none =~= path_start(path));
        starts_stand_for_themselves(path);
    }
}

proof fn nothing_is_named(pieces: Seq<Seq<char>>)
    requires
        forall|k: int| 0 <= k < pieces.len() ==> !names_something()(#[trigger] pieces[k]),
    ensures
        pieces.filter(names_something()) == Seq::<Seq<char>>::empty(),
    decreases pieces.len(),
{
    reveal(Seq::filter);
    if pieces.len() > 0 {
        assert(!names_something()(pieces[pieces.len() - 1]));
        nothing_is_named(pieces.drop_last());
    }
}

proof fn starts_stand_for_themselves(path: Seq<char>)
    ensures
        path_start(path).len() > 0 ==> components(path_start(path)[0]) == path_start(path),
        components(Seq::empty()) == Seq::<Seq<char>>::empty(),
{
    reveal_strlit("/");
    reveal_strlit(".");
    let none = Seq::<char>::empty();
    assert(split(none, '/') =~= seq![none]);
    nothing_is_named(seq![none]);
    assert(components(none) =~= Seq::<Seq<char>>::empty());
    let root = "/"@;
    assert(root.drop_last() =~= none);
    assert(split(root, '/') =~= seq![none, none]);
    nothing_is_named(seq![none, none]);
    assert(components(root) =~= seq![root]);
    let here = "."@;
    assert(!here.contains('/'));
    a_piece_stays_whole(here);
    nothing_is_named(seq![here]);
    assert(components(here) =~= seq![here]);
}

/// The folder of a path has the components of the path but the last.
pub proof fn folders_have_all_but_the_last_component(path: Seq<char>)
    ensures
        folder_of(path) matches Some(folder) ==> components(folder) == components(path).drop_last(),
{
    let pieces = split(path, '/');
    let named = up_to_last_name(pieces);
    let keep = names_something();
    last_name_counts_all(pieces);
    reveal_strlit("/");
    if folder_of(path) is Some {
        if named.len() == 0 {
            assert(pieces.filter(keep) =~= Seq::<Seq<char>>::empty()) by {
                reveal(Seq::filter);
            }
            starts_stand_for_themselves(path);
            assert(components(path) =~= path_start(path));
            assert(components(path).drop_last() =~= Seq::<Seq<char>>::empty());
        } else {
            let n = named.len() - 1;
            assert(named.drop_last() =~= pieces.take(n));
            assert(named =~= pieces.take(n + 1));
            filter_step(pieces, n, keep);
            assert(named.last() == pieces[n]);
            text_up_to_has_the_components(path, n);
            let above = pieces.take(n).filter(keep);
            assert(components(path) =~= (path_start(path) + above).push(pieces[n]));
            assert(components(path).drop_last() =~= path_start(path) + above);
        }
    }
}

/// Every path lies in a folder, but the root and the path without components.
pub proof fn paths_lie_in_folders(path: Seq<char>)
    ensures
        folder_of(path) is Some <==> components(path).len() > 0 && components(path) != seq!["/"@],
{
    reveal_strlit("/");
    let parts = components(path);
    let names = split(path, '/').filter(names_something());
    if parts.len() > 0 && parts.last() == "/"@ && parts != seq!["/"@] {
        if names.len() > 0 {
            let last = names.len() - 1;
            filter_comes_from(split(path, '/'), names_something(), last);
            let k = choose|k: int| 0 <= k < split(path, '/').len() && #[trigger] split(path, '/')[k] == names[last];
            pieces_hold_no_separator(path, k);
            assert(names[last] == parts.last());
            assert(parts.last()[0] == '/');
        } else {
            assert(parts =~= path_start(path));
            assert(parts =~= seq!["/"@]);
        }
    }
}

proof fn from_name_skips_names(pieces: Seq<Seq<char>>, n: int)
    requires
        0 <= n <= pieces.filter(names_something()).len(),
    ensures
        from_name(pieces, n).filter(names_something()) == pieces.filter(names_something()).skip(n),
        from_name(pieces, n).len() <= pieces.len(),
        from_name(pieces, n) == pieces.skip(pieces.len() - from_name(pieces, n).len()),
        from_name(pieces, n).len() > 0 ==> names_something()(from_name(pieces, n)[0]),
    decreases pieces.len(),
{
    let keep = names_something();
    if pieces.len() == 0 {
        assert(pieces.skip(0) =~= pieces);
        nothing_is_named(pieces);
        assert(pieces.filter(keep).skip(n) =~= pieces.filter(keep));
    } else {
        let first = seq![pieces[0]];
        let rest = pieces.drop_first();
        assert(pieces =~= first + rest);
        Seq::filter_distributes_over_add(first, rest, keep);
        if !keep(pieces[0]) {
            nothing_is_named(first);
            assert(pieces.filter(keep) =~= rest.filter(keep));
            from_name_skips_names(rest, n);
            assert(rest.skip(rest.len() - from_name(rest, n).len()) =~= pieces.skip(
                pieces.len() - from_name(rest, n).len(),
            ));
        } else {
            assert(first.filter(keep) =~= first) by {
                reveal(Seq::filter);
                assert(first.drop_last() =~= Seq::empty());
                nothing_is_named(first.drop_last());
            }
            if n == 0 {
                assert(pieces.skip(0) =~= pieces);
                assert(pieces.filter(keep).skip(0) =~= pieces.filter(keep));
            } else {
                from_name_skips_names(rest, n - 1);
                assert(pieces.filter(keep).skip(n) =~= rest.filter(keep).skip(n - 1));
                assert(rest.skip(rest.len() - from_name(rest, n - 1).len()) =~= pieces.skip(
                    pieces.len() - from_name(rest, n - 1).len(),
                ));
            }
        }
    }
}

/// The components of a path in a folder are those of the folder, and after them those of the path
/// as seen from there.
pub proof fn what_is_seen_lies_below(path: Seq<char>, folder: Seq<char>)
    requires
        lies_in(path, folder),
    ensures
        components(path) == components(folder) + components(seen_from(path, folder)),
{
    let keep = names_something();
    let pieces = split(path, '/');
    let parts = components(path);
    let above = components(folder);
    assert(parts =~= above + parts.skip(above.len() as int));
    if above.len() == 0 {
        assert(pieces.take(pieces.len() as int) =~= pieces);
        text_up_to_has_the_components(path, pieces.len() as int);
    } else {
        let n = above.len() - path_start(path).len();
        from_name_skips_names(pieces, n);
        assert(parts.skip(above.len() as int) =~= pieces.filter(keep).skip(n));
        let below = from_name(pieces, n);
        let named = up_to_last_name(below);
        last_name_counts_all(below);
        let text = join(named, "/"@);
        if named.len() == 0 {
            nothing_is_named(named);
            starts_stand_for_themselves(path);
            assert(text =~= Seq::<char>::empty());
        } else {
            assert forall|k: int| 0 <= k < named.len() implies !(#[trigger] named[k]).contains('/') by {
                pieces_hold_no_separator(path, pieces.len() - below.len() + k);
                assert(named[k] == pieces[pieces.len() - below.len() + k]);
            }
            joined_pieces_come_apart(named);
            assert(named[0] == below[0]);
            if text.len() > 0 {
                rooted_paths_start_empty(text);
            } else {
                assert(split(text, '/') =~= seq![Seq::<char>::empty()]);
            }
            assert(path_start(text) =~= Seq::<Seq<char>>::empty());
            assert(components(text) =~= named.filter(keep));
        }
    }
}

/// The components of a path.
pub fn components_of(path: &str) -> (parts: Vec<String>)
    ensures
        texts(parts@) == components(path@),
{
    let pieces = split_at_each(path, '/');
    let ghost all = split(path@, '/');
    let ghost keep = names_something();
    let chars = chars_of(path);
    let mut parts: Vec<String> = Vec::new();
    proof {
        split_nonempty(path@, '/');
        texts_empty();
        filter_none(all, keep);
        assert(texts(pieces@)[0] == pieces@[0]@);
    }
    if chars.len() > 0 && chars[0] == '/' {
        let root = "/".to_owned();
        proof {
            texts_push(parts@, root);
        }
        parts.push(root);
    } else if same_text(pieces[0].as_str(), ".") {
        let here = ".".to_owned();
        proof {
            texts_push(parts@, here);
        }
        parts.push(here);
    }
    assert(texts(parts@) =~= path_start(path@) + all.take(0).filter(keep));
    let mut i: usize = 0;
    while i < pieces.len()
        invariant
            i <= pieces@.len(),
            texts(pieces@) == all,
            keep == names_something(),
            texts(parts@) == path_start(path@) + all.take(i as int).filter(keep),
        decreases pieces@.len() - i,
    {
        let ghost before = all.take(i as int).filter(keep);
        proof {
            filter_step(all, i as int, keep);
            assert(texts(pieces@)[i as int] == pieces@[i as int]@);
        }
        if !pieces[i].as_str().is_empty() && !same_text(pieces[i].as_str(), ".") {
            let piece = pieces[i].clone();
            proof {
                texts_push(parts@, piece);
                assert((path_start(path@) + before).push(piece@) =~= path_start(path@) + before.push(piece@));
            }
            parts.push(piece);
        }
        i = i + 1;
    }
    assert(texts(pieces@).len() == pieces@.len());
    assert(all.take(all.len() as int) =~= all);
    parts
}

/// How many pieces there are up to the last one that names something.
fn count_to_last_name(pieces: &Vec<String>) -> (end: usize)
    ensures
        end <= pieces@.len(),
        up_to_last_name(texts(pieces@)) == texts(pieces@).take(end as int),
{
    let ghost all = texts(pieces@);
    let mut end: usize = pieces.len();
    assert(all.take(end as int) =~= all);
    while end > 0
        invariant
            end <= pieces@.len(),
            all == texts(pieces@),
            all.len() == pieces@.len(),
            up_to_last_name(all) == up_to_last_name(all.take(end as int)),
        decreases end,
    {
        proof {
            assert(all.take(end as int).last() == pieces@[end - 1]@);
            assert(all.take(end as int).drop_last() =~= all.take(end - 1));
        }
        if !pieces[end - 1].as_str().is_empty() && !same_text(pieces[end - 1].as_str(), ".") {
            return end;
        }
        end = end - 1;
    }
    end
}

/// The text of a path up to the last of these pieces of it that names something.
fn text_up_to_last_name(path: &str, mut pieces: Vec<String>) -> (r: String)
    ensures
        r@ == text_up_to(path@, texts(pieces@)),
{
    let ghost all = texts(pieces@);
    let end: usize = count_to_last_name(&pieces);
    if end > 0 {
        pieces.truncate(end);
        assert(texts(pieces@) =~= all.take(end as int));
        return joined(&pieces, "/");
    }
    let whole = split_at_each(path, '/');
    let chars = chars_of(path);
    proof {
        split_nonempty(path@, '/');
        assert(texts(whole@)[0] == whole@[0]@);
    }
    if chars.len() > 0 && chars[0] == '/' {
        "/".to_owned()
    } else if same_text(whole[0].as_str(), ".") {
        ".".to_owned()
    } else {
        String::new()
    }
}

/// The pieces from the one that names something after `n` others that do.
fn pieces_from_name(pieces: Vec<String>, n: usize) -> (r: Vec<String>)
    ensures
        texts(r@) == from_name(texts(pieces@), n as int),
{
    let ghost all = texts(pieces@);
    let mut rest = pieces;
    let mut left: usize = n;
    while rest.len() > 0
        invariant
            all == texts(pieces@),
            from_name(all, n as int) == from_name(texts(rest@), left as int),
        decreases rest@.len(),
    {
        assert(texts(rest@)[0] == rest@[0]@);
        if !rest[0].as_str().is_empty() && !same_text(rest[0].as_str(), ".") {
            if left == 0 {
                return rest;
            }
            left = left - 1;
        }
        let ghost before = texts(rest@);
        rest.remove(0);
        assert(texts(rest@) =~= before.drop_first());
    }
    rest
}

/// A path as seen from a folder it lies in.
pub fn relative_to(path: &str, folder: &str) -> (r: String)
    ensures
        r@ == seen_from(path@, folder@),
{
    if !path_lies_in(path, folder) {
        return path.to_owned();
    }
    let above = components_of(folder);
    let parts = components_of(path);
    let pieces = split_at_each(path, '/');
    let chars = chars_of(path);
    proof {
        assert(texts(above@).len() == above@.len());
        assert(texts(parts@).len() == parts@.len());
        split_nonempty(path@, '/');
        assert(texts(pieces@)[0] == pieces@[0]@);
    }
    if above.len() == 0 {
        return text_up_to_last_name(path, pieces);
    }
    let has_start = (chars.len() > 0 && chars[0] == '/') || same_text(pieces[0].as_str(), ".");
    let skip: usize = if has_start {
        above.len() - 1
    } else {
        above.len()
    };
    let mut rest = pieces_from_name(pieces, skip);
    let ghost all = texts(rest@);
    let end: usize = count_to_last_name(&rest);
    rest.truncate(end);
    assert(texts(rest@) =~= all.take(end as int));
    joined(&rest, "/")
}

/// Whether a path is a folder or lies in it.
pub fn path_lies_in(path: &str, dir: &str) -> (b: bool)
    ensures
        b == lies_in(path@, dir@),
{
    let parts = components_of(path);
    let wanted = components_of(dir);
    proof {
        assert(texts(parts@).len() == parts@.len());
        assert(texts(wanted@).len() == wanted@.len());
    }
    if wanted.len() > parts.len() {
        return false;
    }
    let mut i: usize = 0;
    while i < wanted.len()
        invariant
            i <= wanted@.len() <= parts@.len(),
            texts(parts@) == components(path@),
            texts(wanted@) == components(dir@),
            forall|k: int| 0 <= k < i ==> #[trigger] texts(wanted@)[k] == texts(parts@)[k],
        decreases wanted@.len() - i,
    {
        proof {
            assert(texts(wanted@)[i as int] == wanted@[i as int]@);
            assert(texts(parts@)[i as int] == parts@[i as int]@);
        }
        if wanted[i] != parts[i] {
            proof {
                assert(texts(parts@).subrange(0, texts(wanted@).len() as int)[i as int] == texts(parts@)[i as int]);
            }
            return false;
        }
        i = i + 1;
    }
    assert(texts(wanted@) =~= texts(parts@).subrange(0, texts(wanted@).len() as int));
    true
}

/// The name at the end of a path.
pub fn file_name(path: &str) -> (name: Option<String>)
    ensures
        match name {
            Some(n) => name_of(path@) == Some(n@),
            None => name_of(path@) == None::<Seq<char>>,
        },
{
    let parts = components_of(path);
    assert(texts(parts@).len() == parts@.len());
    if parts.len() == 0 {
        return None;
    }
    let last: usize = parts.len() - 1;
    assert(texts(parts@)[last as int] == parts@[last as int]@);
    if same_text(parts[last].as_str(), "/") || same_text(parts[last].as_str(), ".")
        || same_text(parts[last].as_str(), "..") {
        None
    } else {
        Some(parts[last].clone())
    }
}

/// The folder that holds what a path names.
pub fn parent_folder(path: &str) -> (folder: Option<String>)
    ensures
        match folder {
            Some(f) => folder_of(path@) == Some(f@),
            None => folder_of(path@) == None::<Seq<char>>,
        },
{
    let parts = components_of(path);
    assert(texts(parts@).len() == parts@.len());
    if parts.len() == 0 {
        return None;
    }
    let last: usize = parts.len() - 1;
    assert(texts(parts@)[last as int] == parts@[last as int]@);
    if same_text(parts[last].as_str(), "/") {
        return None;
    }
    let mut pieces = split_at_each(path, '/');
    let ghost all = texts(pieces@);
    let end: usize = count_to_last_name(&pieces);
    if end == 0 {
        return Some(String::new());
    }
    pieces.truncate(end - 1);
    assert(texts(pieces@) =~= all.take(end as int).drop_last());
    Some(text_up_to_last_name(path, pieces))
}

/// A path and the folders above it, from the inside out.
pub fn path_ancestors(path: &str) -> (list: Vec<String>)
    ensures
        texts(list@) == ancestors(path@),
{
    let mut list: Vec<String> = Vec::new();
    let mut at = path.to_owned();
    assert(texts(list@) + ancestors(at@) =~= ancestors(path@));
    loop
        invariant_except_break
            texts(list@) + ancestors(at@) == ancestors(path@),
        ensures
            texts(list@) == ancestors(path@),
        decreases components(at@).len(),
    {
        let above = parent_folder(at.as_str());
        let ghost here = at@;
        let ghost before = texts(list@);
        proof {
            paths_lie_in_folders(here);
            folders_have_all_but_the_last_component(here);
            texts_push(list@, at);
        }
        list.push(at);
        match above {
            Some(folder) => {
                assert(before + (seq![here] + ancestors(folder@)) =~= before.push(here) + ancestors(folder@));
                at = folder;
            },
            None => {
                assert(before + seq![here] =~= before.push(here));
                break;
            },
        }
    }
    list
}

/// Whether two paths have the same components.
pub fn is_same_path(a: &str, b: &str) -> (r: bool)
    ensures
        r == same_path(a@, b@),
{
    let left = components_of(a);
    let right = components_of(b);
    same_texts(&left, &right)
}

/// Whether a list names a path.
pub fn list_names_path(list: &Vec<String>, path: &str) -> (r: bool)
    ensures
        r == names_path(texts(list@), path@),
{
    let mut i: usize = 0;
    while i < list.len()
        invariant
            i <= list@.len(),
            forall|k: int| 0 <= k < i ==> !same_path(#[trigger] texts(list@)[k], path@),
        decreases list@.len() - i,
    {
        assert(texts(list@)[i as int] == list@[i as int]@);
        if is_same_path(list[i].as_str(), path) {
            return true;
        }
        i = i + 1;
    }
    false
}

proof fn last_dot_bounds(name: Seq<char>)
    ensures
        -1 <= last_dot(name) < name.len(),
    decreases name.len(),
{
    if name.len() > 0 {
        last_dot_bounds(name.drop_last());
    }
}

proof fn last_dot_before(name: Seq<char>, end: int)
    requires
        0 <= end <= name.len(),
        forall|k: int| end <= k < name.len() ==> #[trigger] name[k] != '.',
    ensures
        last_dot(name) == last_dot(name.take(end)),
    decreases name.len(),
{
    if end == name.len() {
        assert(name.take(end) =~= name);
    } else {
        assert(name.last() != '.');
        assert(name.drop_last().take(end) =~= name.take(end));
        last_dot_before(name.drop_last(), end);
    }
}

/// Where the last dot of a name stands, where it starts an extension.
fn extension_dot(name: &Vec<char>) -> (at: Option<usize>)
    ensures
        match at {
            Some(i) => i < name@.len() && last_dot(name@) == i && i > 0,
            None => last_dot(name@) <= 0,
        },
{
    let mut end: usize = name.len();
    while end > 0
        invariant
            end <= name@.len(),
            forall|k: int| end <= k < name@.len() ==> #[trigger] name@[k] != '.',
        decreases end,
    {
        if name[end - 1] == '.' {
            proof {
                last_dot_before(name@, end as int);
                assert(name@.take(end as int).last() == name@[end - 1]);
            }
            return if end > 1 {
                Some(end - 1)
            } else {
                None
            };
        }
        end = end - 1;
    }
    proof {
        last_dot_before(name@, 0);
    }
    None
}

/// A name without its extension.
pub fn stem_of(name: &str) -> (r: String)
    ensures
        r@ == stem(name@),
{
    let chars = chars_of(name);
    match extension_dot(&chars) {
        Some(dot) => {
            assert(chars@.subrange(0, dot as int) =~= chars@.take(dot as int));
            text_of(&chars, 0, dot)
        },
        None => name.to_owned(),
    }
}

/// The extension of a name.
pub fn extension_of(name: &str) -> (r: Option<String>)
    ensures
        match r {
            Some(e) => extension(name@) == Some(e@),
            None => extension(name@) == None::<Seq<char>>,
        },
{
    let chars = chars_of(name);
    let total: usize = chars.len();
    match extension_dot(&chars) {
        Some(dot) => {
            assert(chars@.subrange(dot + 1, chars@.len() as int) =~= chars@.skip(dot + 1));
            Some(text_of(&chars, dot + 1, total))
        },
        None => None,
    }
}

/// A name in a folder.
pub fn path_in(folder: &str, name: &str) -> (r: String)
    ensures
        r@ == in_folder(folder@, name@),
{
    let chars = chars_of(folder);
    let mut out = folder.to_owned();
    if chars.len() > 0 && chars[chars.len() - 1] != '/' {
        out.append("/");
    }
    out.append(name);
    if chars.len() == 0 {
        assert(Seq::<char>::empty() + name@ =~= name@);
        assert(folder@ =~= Seq::<char>::empty());
    }
    out
}

/// A text with each `c` replaced.
pub fn replace_each(s: &str, c: char, with: &str) -> (r: String)
    ensures
        r@ == replaced(s@, c, with@),
{
    let chars = chars_of(s);
    let mut out = String::new();
    let mut i: usize = 0;
    while i < chars.len()
        invariant
            i <= chars@.len(),
            out@ == replaced(chars@.take(i as int), c, with@),
        decreases chars@.len() - i,
    {
        proof {
            assert(chars@.take(i + 1).drop_last() =~= chars@.take(i as int));
            assert(chars@.take(i + 1).last() == chars@[i as int]);
        }
        if chars[i] == c {
            out.append(with);
        } else {
            out.push(chars[i]);
        }
        i = i + 1;
    }
    assert(chars@.take(chars@.len() as int) =~= s@);
    out
}

/// What is named in a folder has the components of the folder and then its name.
pub proof fn names_in_folders_come_last(folder: Seq<char>, name: Seq<char>)
    requires
        name.len() > 0,
        name != "."@,
        !name.contains('/'),
    ensures
        components(in_folder(folder, name)) == components(folder).push(name),
        name != ".."@ ==> name_of(in_folder(folder, name)) == Some(name),
        folder_of(in_folder(folder, name)) matches Some(above) && same_path(above, folder),
        lies_in(in_folder(folder, name), folder),
{
    reveal_strlit("/");
    let keep = names_something();
    let path = in_folder(folder, name);
    let pieces = split(path, '/');
    assert(name[0] != '/') by {
        if name[0] == '/' {
            assert(name.contains('/'));
        }
    }
    if folder.len() == 0 {
        a_piece_stays_whole(name);
        reveal_strlit(".");
        let nothing = Seq::<char>::empty();
        let alone = seq![name];
        let none = seq![nothing];
        assert(split(folder, '/') == none);
        filter_none(alone, keep);
        filter_step(alone, 0, keep);
        assert(alone.take(1) =~= alone);
        filter_none(none, keep);
        filter_step(none, 0, keep);
        assert(none.take(1) =~= none);
        assert(keep(name) && !keep(nothing));
        assert(none[0].len() == 0);
        assert(path_start(folder) =~= Seq::<Seq<char>>::empty());
        assert(path_start(path) =~= Seq::<Seq<char>>::empty());
        assert(components(path) =~= seq![name]);
        assert(components(folder) =~= Seq::<Seq<char>>::empty());
        assert(components(path) =~= components(folder).push(name));
    } else {
        let front = if folder.last() == '/' { folder.drop_last() } else { folder };
        assert(path =~= front + "/"@ + name);
        one_more_piece(front, name);
        split_nonempty(front, '/');
        let above = split(front, '/');
        reveal(Seq::filter);
        assert(above.push(name).drop_last() =~= above);
        if folder.last() == '/' {
            assert(folder.drop_last() + "/"@ =~= folder);
            assert(split(folder, '/') == above.push(Seq::<char>::empty()));
            assert(above.push(Seq::<char>::empty()).drop_last() =~= above);
        }
        assert(split(folder, '/').filter(keep) == above.filter(keep));
        assert(split(folder, '/')[0] == pieces[0]);
        assert(path[0] == folder[0]);
        assert(path_start(path) == path_start(folder));
        assert(components(path) =~= components(folder).push(name));
    }
    let parts = components(path);
    assert(parts.last() == name);
    assert(name != "/"@) by {
        if name == "/"@ {
            assert(name[0] == '/');
        }
    }
    paths_lie_in_folders(path);
    folders_have_all_but_the_last_component(path);
    assert(parts.drop_last() =~= components(folder));
    if parts == seq!["/"@] {
        assert(parts.last() == "/"@);
    }
    assert(components(folder).is_prefix_of(parts));
}

/// The last dot of a name is a dot, and none stands behind it; a name has none exactly if it holds no
/// dot.
pub proof fn the_last_dot_is_the_last(name: Seq<char>)
    ensures
        -1 <= last_dot(name) < name.len(),
        last_dot(name) >= 0 ==> name[last_dot(name)] == '.',
        forall|k: int| last_dot(name) < k < name.len() ==> #[trigger] name[k] != '.',
    decreases name.len(),
{
    if name.len() > 0 && name.last() != '.' {
        let rest = name.drop_last();
        the_last_dot_is_the_last(rest);
        assert forall|k: int| last_dot(name) < k < name.len() implies #[trigger] name[k] != '.' by {
            if k < rest.len() {
                assert(rest[k] == name[k]);
            }
        }
    }
}

/// A name is its stem, a dot and its extension, which holds no dot; or its stem alone, where no dot
/// stands in it but in front.
pub proof fn names_are_stem_and_extension(name: Seq<char>)
    ensures
        extension(name) matches Some(ext) ==> {
            &&& name == stem(name).push('.') + ext
            &&& stem(name).len() > 0
            &&& !ext.contains('.')
        },
        extension(name) is None ==> stem(name) == name && forall|k: int|
            0 < k < name.len() ==> #[trigger] name[k] != '.',
{
    the_last_dot_is_the_last(name);
    if let Some(ext) = extension(name) {
        assert(name =~= stem(name).push('.') + ext);
        if ext.contains('.') {
            let i = choose|i: int| 0 <= i < ext.len() && ext[i] == '.';
            assert(name[last_dot(name) + 1 + i] == '.');
        }
    }
}

/// Replacing a character goes part by part, and one character at a time.
pub proof fn replacing_goes_part_by_part(a: Seq<char>, b: Seq<char>, c: char, with: Seq<char>, x: char)
    ensures
        replaced(a + b, c, with) == replaced(a, c, with) + replaced(b, c, with),
        replaced(seq![c], c, with) == with,
        x != c ==> replaced(seq![x], c, with) == seq![x],
    decreases b.len(),
{
    reveal_with_fuel(replaced, 2);
    assert(seq![c].drop_last() =~= Seq::<char>::empty());
    assert(seq![x].drop_last() =~= Seq::<char>::empty());
    assert(replaced(seq![c], c, with) =~= with);
    assert(x != c ==> replaced(seq![x], c, with) =~= seq![x]);
    if b.len() == 0 {
        assert(a + b =~= a);
        assert(replaced(a, c, with) + replaced(b, c, with) =~= replaced(a, c, with));
    } else {
        assert((a + b).drop_last() =~= a + b.drop_last());
        replacing_goes_part_by_part(a, b.drop_last(), c, with, x);
        assert(replaced(a + b, c, with) =~= replaced(a, c, with) + replaced(b, c, with));
    }
}

/// Two paths are the same exactly if each lies in the other; what lies in a folder of a folder lies in
/// that one too.
pub proof fn lying_in_is_an_order(a: Seq<char>, b: Seq<char>, c: Seq<char>)
    ensures
        lies_in(a, a),
        lies_in(a, b) && lies_in(b, a) <==> same_path(a, b),
        lies_in(a, b) && lies_in(b, c) ==> lies_in(a, c),
{
    if lies_in(a, b) && lies_in(b, a) {
        assert(components(a) =~= components(b));
    }
    if lies_in(a, b) && lies_in(b, c) {
        assert(components(c) =~= components(a).take(components(c).len() as int));
    }
}

/// Going up from a path, each step is the folder of the one before, and what it goes through is
/// exactly what the path lies in, down to the root or the start.
pub proof fn ancestors_go_up_one_by_one(path: Seq<char>, i: int)
    requires
        0 <= i < ancestors(path).len(),
    ensures
        ancestors(path)[0] == path,
        i + 1 < ancestors(path).len() ==> folder_of(ancestors(path)[i]) == Some(ancestors(path)[i + 1]),
        i + 1 == ancestors(path).len() ==> folder_of(ancestors(path)[i]) is None,
        lies_in(path, ancestors(path)[i]),
    decreases components(path).len(),
{
    paths_lie_in_folders(path);
    folders_have_all_but_the_last_component(path);
    if let Some(folder) = folder_of(path) {
        assert(components(folder).is_prefix_of(components(path)));
        ancestors_go_up_one_by_one(folder, 0);
        assert(ancestors(path) == seq![path] + ancestors(folder));
        if i > 0 {
            ancestors_go_up_one_by_one(folder, i - 1);
            lying_in_is_an_order(path, folder, ancestors(path)[i]);
        } else {
            lying_in_is_an_order(path, path, path);
        }
    } else {
        lying_in_is_an_order(path, path, path);
    }
}

/// A path has the components of its parts: separators that are repeated or stand at the end do not
/// count.
pub proof fn separators_at_the_end_do_not_count(path: Seq<char>)
    requires
        path.len() > 0,
    ensures
        same_path(path.push('/'), path),
{
    let pieces = split(path, '/');
    split_nonempty(path, '/');
    assert(path.push('/').drop_last() =~= path);
    assert(split(path.push('/'), '/') == pieces.push(Seq::<char>::empty()));
    reveal(Seq::filter);
    assert(pieces.push(Seq::<char>::empty()).drop_last() =~= pieces);
    assert(path.push('/')[0] == path[0]);
}

/// The name of a path is its last component and holds no separator.
pub proof fn names_are_last_components(path: Seq<char>)
    ensures
        name_of(path) matches Some(name) ==> components(path).len() > 0 && components(path).last() == name
            && name.len() > 0 && !name.contains('/') && name != "."@ && name != ".."@,
        name_of(path) is None ==> components(path).len() == 0 || components(path).last() == "/"@
            || components(path).last() == "."@ || components(path).last() == ".."@,
{
    let names = split(path, '/').filter(names_something());
    if let Some(name) = name_of(path) {
        if names.len() == 0 {
            assert(components(path) =~= path_start(path));
        } else {
            let last = names.len() - 1;
            assert(names[last] == name);
            filter_comes_from(split(path, '/'), names_something(), last);
            crate::seqs::filter_holds(split(path, '/'), names_something());
            let k = choose|k: int| 0 <= k < split(path, '/').len() && #[trigger] split(path, '/')[k] == names[last];
            pieces_hold_no_separator(path, k);
            assert(names_something()(names[last]));
        }
    }
}

/// Every component of a path but the first is a name: it holds something, is not `.`, and holds no
/// separator.
pub proof fn later_components_are_names(path: Seq<char>, k: int)
    requires
        0 < k < components(path).len(),
    ensures
        components(path)[k].len() > 0,
        components(path)[k] != "."@,
        !components(path)[k].contains('/'),
{
    let pieces = split(path, '/');
    let names = pieces.filter(names_something());
    let i = k - path_start(path).len();
    assert(components(path)[k] == names[i]);
    filter_comes_from(pieces, names_something(), i);
    crate::seqs::filter_holds(pieces, names_something());
    let j = choose|j: int| 0 <= j < pieces.len() && #[trigger] pieces[j] == names[i];
    pieces_hold_no_separator(path, j);
    assert(names_something()(names[i]));
}

proof fn joined_part_begins_the_text(pieces: Seq<Seq<char>>, n: int)
    requires
        0 <= n <= pieces.len(),
    ensures
        join(pieces.take(n), "/"@).is_prefix_of(join(pieces, "/"@)),
{
    let front = pieces.take(n);
    let back = pieces.skip(n);
    assert(pieces =~= front + back);
    let whole = join(pieces, "/"@);
    if n == 0 {
        assert(join(front, "/"@) =~= Seq::<char>::empty());
        assert(whole.take(0) =~= Seq::<char>::empty());
    } else if n == pieces.len() {
        assert(front =~= pieces);
        assert(whole.take(whole.len() as int) =~= whole);
    } else {
        joined_pieces_stand_one_after_another(front, back, "/"@);
        assert(whole.take(join(front, "/"@).len() as int) =~= join(front, "/"@));
    }
}

proof fn names_come_first(pieces: Seq<Seq<char>>)
    ensures
        up_to_last_name(pieces).is_prefix_of(pieces),
    decreases pieces.len(),
{
    if pieces.len() > 0 && !names_something()(pieces.last()) {
        names_come_first(pieces.drop_last());
    }
}

/// The folder of a path is written as the path begins, letter for letter.
pub proof fn folders_are_written_as_the_path_begins(path: Seq<char>)
    ensures
        folder_of(path) matches Some(folder) ==> folder.is_prefix_of(path),
{
    reveal_strlit("/");
    reveal_strlit(".");
    let pieces = split(path, '/');
    splitting_and_joining_is_the_text(path, '/');
    assert("/"@ =~= seq!['/']);
    if let Some(folder) = folder_of(path) {
        let named = up_to_last_name(pieces);
        names_come_first(pieces);
        if named.len() > 0 {
            let above = up_to_last_name(named.drop_last());
            names_come_first(named.drop_last());
            if above.len() > 0 {
                assert(above =~= pieces.take(above.len() as int));
                joined_part_begins_the_text(pieces, above.len() as int);
            } else if path_start(path).len() > 0 {
                if path.len() > 0 && path[0] == '/' {
                    assert(path.take(1) =~= "/"@);
                } else {
                    split_nonempty(path, '/');
                    joined_part_begins_the_text(pieces, 1);
                    assert(pieces.take(1) =~= seq![pieces[0]]);
                    assert(join(seq![pieces[0]], "/"@) == pieces[0]);
                }
            } else {
                assert(path.take(0) =~= Seq::<char>::empty());
            }
        } else {
            assert(path.take(0) =~= Seq::<char>::empty());
        }
    }
}

/// A name in a folder is written with the folder before it, and one separator between them, unless the
/// folder ends in one or is empty.
pub proof fn one_separator_stands_before_a_name(folder: Seq<char>, name: Seq<char>)
    ensures
        folder.is_prefix_of(in_folder(folder, name)),
        name.is_suffix_of(in_folder(folder, name)),
        folder.len() == 0 || folder.last() == '/' ==> in_folder(folder, name).len() == folder.len() + name.len(),
        folder.len() > 0 && folder.last() != '/' ==> in_folder(folder, name).len() == folder.len() + name.len() + 1
            && in_folder(folder, name)[folder.len() as int] == '/',
{
    reveal_strlit("/");
    let path = in_folder(folder, name);
    assert(path.take(folder.len() as int) =~= folder);
    assert(path.skip(path.len() - name.len()) =~= name);
}

/// A path that lies outside of a folder is seen whole from there.
pub proof fn paths_outside_are_seen_whole(path: Seq<char>, folder: Seq<char>)
    requires
        !lies_in(path, folder),
    ensures
        seen_from(path, folder) == path,
{
}

} // verus!
