//! File paths, and when two of them name the same file.
//!
//! Paths are compared piece by piece, as POSIX systems read them: repeated
//! and trailing separators do not count, nor does a `.` piece that is not the
//! first one.

use vstd::prelude::*;

verus! {

/// The pieces of a path between its separators, empty ones too.
pub open spec fn segments(path: Seq<char>) -> Seq<Seq<char>>
    decreases path.len(),
{
    if path.len() == 0 {
        seq![Seq::empty()]
    } else {
        let before = segments(path.drop_last());
        if path.last() == '/' {
            before.push(Seq::empty())
        } else {
            before.drop_last().push(before.last().push(path.last()))
        }
    }
}

/// Whether the piece at `place` counts when paths are compared.
pub open spec fn counts(segment: Seq<char>, place: int) -> bool {
    segment.len() > 0 && !(segment == seq!['.'] && place > 0)
}

/// The pieces that count, in their order.
pub open spec fn counting_segments(pieces: Seq<Seq<char>>) -> Seq<Seq<char>>
    decreases pieces.len(),
{
    if pieces.len() == 0 {
        Seq::empty()
    } else {
        let before = counting_segments(pieces.drop_last());
        if counts(pieces.last(), pieces.len() - 1) {
            before.push(pieces.last())
        } else {
            before
        }
    }
}

/// Whether a path starts at the root, and the pieces of it that count.
pub open spec fn path_components(path: Seq<char>) -> (bool, Seq<Seq<char>>) {
    (path.len() > 0 && path[0] == '/', counting_segments(segments(path)))
}

/// Whether two paths name the same file.
pub open spec fn same_path(a: Seq<char>, b: Seq<char>) -> bool {
    path_components(a) == path_components(b)
}

spec fn deep(pieces: Seq<Vec<char>>) -> Seq<Seq<char>> {
    pieces.map_values(|piece: Vec<char>| piece@)
}

proof fn lemma_segments_nonempty(path: Seq<char>)
    ensures
        segments(path).len() > 0,
    decreases path.len(),
{
    if path.len() > 0 {
        lemma_segments_nonempty(path.drop_last());
    }
}

fn split(path: &str) -> (r: Vec<Vec<char>>)
    ensures
        deep(r@) == segments(path@),
{
    let n = path.unicode_len();
    let mut pieces: Vec<Vec<char>> = Vec::new();
    pieces.push(Vec::new());
    let mut i: usize = 0;
    assert(deep(pieces@) =~= segments(path@.take(0)));
    while i < n
        invariant
            n == path@.len(),
            i <= n,
            deep(pieces@) == segments(path@.take(i as int)),
        decreases n - i,
    {
        let c = path.get_char(i);
        proof {
            lemma_segments_nonempty(path@.take(i as int));
            assert(path@.take(i + 1).drop_last() =~= path@.take(i as int));
        }
        assert(pieces@.len() == deep(pieces@).len());
        let ghost before = pieces@;
        if c == '/' {
            pieces.push(Vec::new());
            assert(deep(pieces@) =~= deep(before).push(Seq::empty()));
        } else {
            if let Some(mut last) = pieces.pop() {
                assert(last@ == deep(before).last());
                last.push(c);
                pieces.push(last);
                assert(deep(pieces@) =~= deep(before).drop_last().push(
                    deep(before).last().push(c),
                ));
            }
        }
        i = i + 1;
    }
    assert(path@.take(n as int) =~= path@);
    pieces
}

fn is_dot(piece: &Vec<char>) -> (r: bool)
    ensures
        r == (piece@ == seq!['.']),
{
    if piece.len() == 1 && piece[0] == '.' {
        assert(piece@ =~= seq!['.']);
        true
    } else {
        false
    }
}

/// What of a path counts when it is compared with another.
struct PathComponents {
    absolute: bool,
    pieces: Vec<Vec<char>>,
}

impl PathComponents {
    spec fn view(&self) -> (bool, Seq<Seq<char>>) {
        (self.absolute, deep(self.pieces@))
    }

    fn of(path: &str) -> (r: PathComponents)
        ensures
            r.view() == path_components(path@),
    {
        let all = split(path);
        let absolute = path.unicode_len() > 0 && path.get_char(0) == '/';
        let mut pieces: Vec<Vec<char>> = Vec::new();
        let mut i: usize = 0;
        assert(deep(pieces@) =~= counting_segments(deep(all@).take(0)));
        while i < all.len()
            invariant
                i <= all.len(),
                deep(pieces@) == counting_segments(deep(all@).take(i as int)),
            decreases all.len() - i,
        {
            let piece = &all[i];
            let ghost before = pieces@;
            assert(deep(all@).take(i + 1).drop_last() =~= deep(all@).take(i as int));
            assert(deep(all@).take(i + 1).last() == piece@);
            if piece.len() > 0 && !(is_dot(piece) && i > 0) {
                let kept = copy_piece(piece);
                pieces.push(kept);
                assert(deep(pieces@) =~= deep(before).push(piece@));
            }
            i = i + 1;
        }
        assert(deep(all@).take(all@.len() as int) =~= deep(all@));
        PathComponents { absolute, pieces }
    }
}

fn copy_piece(piece: &Vec<char>) -> (r: Vec<char>)
    ensures
        r@ == piece@,
{
    let mut r: Vec<char> = Vec::new();
    let mut i: usize = 0;
    while i < piece.len()
        invariant
            i <= piece.len(),
            r@ == piece@.take(i as int),
        decreases piece.len() - i,
    {
        r.push(piece[i]);
        assert(piece@.take(i + 1) =~= piece@.take(i as int).push(piece@[i as int]));
        i = i + 1;
    }
    assert(piece@.take(piece@.len() as int) =~= piece@);
    r
}

fn same_piece(a: &Vec<char>, b: &Vec<char>) -> (r: bool)
    ensures
        r == (a@ == b@),
{
    if a.len() != b.len() {
        return false;
    }
    let mut i: usize = 0;
    while i < a.len()
        invariant
            i <= a.len(),
            a@.len() == b@.len(),
            forall|j: int| 0 <= j < i ==> a@[j] == b@[j],
        decreases a.len() - i,
    {
        if a[i] != b[i] {
            return false;
        }
        i = i + 1;
    }
    assert(a@ =~= b@);
    true
}

/// Whether two paths name the same file.
pub fn paths_equal(a: &str, b: &str) -> (r: bool)
    ensures
        r == same_path(a@, b@),
{
    let x = PathComponents::of(a);
    let y = PathComponents::of(b);
    if x.absolute != y.absolute {
        return false;
    }
    if x.pieces.len() != y.pieces.len() {
        assert(deep(x.pieces@).len() != deep(y.pieces@).len());
        return false;
    }
    let mut i: usize = 0;
    while i < x.pieces.len()
        invariant
            i <= x.pieces.len(),
            x.pieces@.len() == y.pieces@.len(),
            x.view() == path_components(a@),
            y.view() == path_components(b@),
            forall|j: int| 0 <= j < i ==> deep(x.pieces@)[j] == deep(y.pieces@)[j],
        decreases x.pieces.len() - i,
    {
        if !same_piece(&x.pieces[i], &y.pieces[i]) {
            assert(deep(x.pieces@)[i as int] != deep(y.pieces@)[i as int]);
            return false;
        }
        i = i + 1;
    }
    assert(deep(x.pieces@) =~= deep(y.pieces@));
    true
}

proof fn lemma_segments_plain(path: Seq<char>, name: Seq<char>)
    requires
        !name.contains('/'),
    ensures
        segments(path + name).len() == segments(path).len(),
        segments(path + name) == segments(path).drop_last().push(segments(path).last() + name),
    decreases name.len(),
{
    lemma_segments_nonempty(path);
    if name.len() == 0 {
        assert(path + name =~= path);
        assert(segments(path).last() + name =~= segments(path).last());
        assert(segments(path).drop_last().push(segments(path).last()) =~= segments(path));
    } else {
        let rest = name.drop_last();
        assert forall|c: char| rest.contains(c) implies name.contains(c) by {
            let i = choose|i: int| 0 <= i < rest.len() && rest[i] == c;
            assert(name[i] == c);
        }
        lemma_segments_plain(path, rest);
        assert((path + name).drop_last() =~= path + rest);
        assert(name[name.len() - 1] == name.last());
        assert(name.contains(name.last()));
        assert((path + name).last() == name.last());
        let before = segments(path + rest);
        assert(before.drop_last() =~= segments(path).drop_last());
        assert(before.last() == segments(path).last() + rest);
        assert(before.last().push(name.last()) =~= segments(path).last() + name);
    }
}

/// A name without separators is a path of one piece, relative.
pub proof fn law_plain_names_are_one_piece(name: Seq<char>)
    requires
        !name.contains('/'),
        name.len() > 0,
    ensures
        path_components(name) == (false, seq![name]),
{
    lemma_segments_plain(Seq::empty(), name);
    assert(Seq::<char>::empty() + name =~= name);
    assert(segments(Seq::<char>::empty()) =~= seq![Seq::<char>::empty()]);
    assert(segments(name) =~= seq![name]);
    assert(name.contains(name[0]));
    let pieces = segments(name);
    assert(counting_segments(pieces.drop_last()) =~= Seq::empty());
    assert(counting_segments(pieces) =~= seq![name]);
}

/// A name behind a separator adds one piece to a path, unless it is empty or a
/// single dot, which add none. The path starts at the root if the part in front
/// does or is empty.
pub proof fn law_joined_paths_add_a_piece(dir: Seq<char>, name: Seq<char>)
    requires
        !name.contains('/'),
    ensures
        path_components(dir.push('/') + name).0 == (dir.len() == 0 || dir[0] == '/'),
        path_components(dir.push('/') + name).1 == if name.len() == 0 || name == seq!['.'] {
            path_components(dir).1
        } else {
            path_components(dir).1.push(name)
        },
        dir.len() == 0 ==> path_components(dir) == (false, Seq::<Seq<char>>::empty()),
{
    let path = dir.push('/') + name;
    lemma_segments_nonempty(dir);
    lemma_segments_plain(dir.push('/'), name);
    assert(dir.push('/').drop_last() =~= dir);
    assert(segments(dir.push('/')) =~= segments(dir).push(Seq::empty()));
    assert(Seq::<char>::empty() + name =~= name);
    assert(segments(path) =~= segments(dir).push(name));
    assert(segments(path).drop_last() =~= segments(dir));
    if dir.len() == 0 {
        let pieces = segments(dir);
        assert(pieces.drop_last() =~= Seq::empty());
        assert(counting_segments(pieces.drop_last()) =~= Seq::empty());
        assert(path[0] == '/');
    } else {
        assert(path[0] == dir[0]);
    }
}

/// Paths name the same file exactly if both or neither start at the root and
/// their pieces are equal.
pub proof fn law_same_paths_have_the_same_pieces(a: Seq<char>, b: Seq<char>)
    ensures
        same_path(a, b) <==> path_components(a).0 == path_components(b).0 && path_components(a).1
            == path_components(b).1,
{
}

} // verus!
