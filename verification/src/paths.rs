//! Paths as `/`-separated components, whether one path lies under another,
//! and a path with its extension replaced, as `std::path::Path` reads paths
//! on Unix.

use vstd::prelude::*;
use crate::text::{chars_of, last_dot, lemma_last_dot_before};
use vstd::string::StrSliceExecFns;

verus! {

/// A piece between separators that is a component of its own: not empty, and
/// not `.` (which only counts at the very start of a relative path).
pub open spec fn is_normal_piece(piece: Seq<char>) -> bool {
    piece.len() > 0 && piece != seq!['.']
}

/// `done` with `piece` appended when it is a component of its own.
pub open spec fn keep_piece(done: Seq<Seq<char>>, piece: Seq<char>) -> Seq<Seq<char>> {
    if is_normal_piece(piece) {
        done.push(piece)
    } else {
        done
    }
}

/// Reading the first `i` characters of `p`: the components finished so far,
/// and the piece being read.
pub open spec fn scan_pieces(p: Seq<char>, i: int) -> (Seq<Seq<char>>, Seq<char>)
    decreases i,
{
    if i <= 0 {
        (Seq::empty(), Seq::empty())
    } else {
        let (done, piece) = scan_pieces(p, i - 1);
        if p[i - 1] == '/' {
            (keep_piece(done, piece), Seq::empty())
        } else {
            (done, piece.push(p[i - 1]))
        }
    }
}

/// The named components of `p`: the pieces between `/` separators, leaving
/// out empty pieces (repeated or trailing separators) and `.` pieces.
pub open spec fn normal_components(p: Seq<char>) -> Seq<Seq<char>> {
    let (done, piece) = scan_pieces(p, p.len() as int);
    keep_piece(done, piece)
}

/// An absolute path starts at the root.
pub open spec fn has_root(p: Seq<char>) -> bool {
    p.len() > 0 && p[0] == '/'
}

/// A relative path that begins with `.` as a piece of its own keeps it.
pub open spec fn has_cur_dir(p: Seq<char>) -> bool {
    p.len() > 0 && p[0] == '.' && (p.len() == 1 || p[1] == '/')
}

/// The components of a path as `std::path::Path::components` yields them on
/// Unix: the root as `/`, a leading `.`, then the named pieces (`..` among
/// them, as itself).
pub open spec fn path_components(p: Seq<char>) -> Seq<Seq<char>> {
    (if has_root(p) {
        seq![seq!['/']]
    } else {
        Seq::empty()
    }) + (if has_cur_dir(p) {
        seq![seq!['.']]
    } else {
        Seq::empty()
    }) + normal_components(p)
}

/// `path` lies under `base`: the components of `base` begin those of `path`
/// (as `std::path::Path::starts_with` decides on Unix).
pub open spec fn path_under(path: Seq<char>, base: Seq<char>) -> bool {
    let pc = path_components(path);
    let bc = path_components(base);
    bc.len() <= pc.len() && pc.subrange(0, bc.len() as int) == bc
}

/// The views of a sequence of character vectors.
pub open spec fn views(v: Seq<Vec<char>>) -> Seq<Seq<char>> {
    v.map_values(|c: Vec<char>| c@)
}

/// The components of `path`.
pub fn components_of(path: &str) -> (r: Vec<Vec<char>>)
    ensures
        views(r@) == path_components(path@),
{
    let cs = chars_of(path);
    let n = cs.len();
    let mut out: Vec<Vec<char>> = Vec::new();
    let root = n > 0 && cs[0] == '/';
    let cur_dir = n > 0 && cs[0] == '.' && (n == 1 || cs[1] == '/');
    assert(root == has_root(path@));
    assert(cur_dir == has_cur_dir(path@));
    if root {
        let mut slash: Vec<char> = Vec::new();
        slash.push('/');
        assert(slash@ =~= seq!['/']);
        out.push(slash);
    }
    if cur_dir {
        let mut dot: Vec<char> = Vec::new();
        dot.push('.');
        assert(dot@ =~= seq!['.']);
        let ghost before = out@;
        out.push(dot);
        assert(views(out@) =~= views(before).push(seq!['.']));
    }
    let ghost lead = views(out@);
    proof {
        assert(lead =~= (if has_root(path@) {
            seq![seq!['/']]
        } else {
            Seq::empty()
        }) + (if has_cur_dir(path@) {
            seq![seq!['.']]
        } else {
            Seq::empty()
        }));
        assert(views(out@) =~= lead + scan_pieces(path@, 0).0);
    }
    let mut piece: Vec<char> = Vec::new();
    for i in 0..n
        invariant
            n == cs@.len(),
            cs@ == path@,
            views(out@) == lead + scan_pieces(path@, i as int).0,
            piece@ == scan_pieces(path@, i as int).1,
    {
        let c = cs[i];
        if c == '/' {
            let normal = piece.len() > 0 && !(piece.len() == 1 && piece[0] == '.');
            proof {
                if piece@ == seq!['.'] {
                    assert(piece@[0] == '.');
                }
                if piece.len() == 1 && piece@[0] == '.' {
                    assert(piece@ =~= seq!['.']);
                }
                assert(normal == is_normal_piece(piece@));
            }
            let ghost before = out@;
            if normal {
                out.push(piece);
                proof {
                    assert(views(out@) =~= views(before).push(scan_pieces(path@, i as int).1));
                }
            }
            piece = Vec::new();
            proof {
                assert(piece@ =~= Seq::<char>::empty());
            }
        } else {
            piece.push(c);
        }
    }
    let normal = piece.len() > 0 && !(piece.len() == 1 && piece[0] == '.');
    proof {
        if piece@ == seq!['.'] {
            assert(piece@[0] == '.');
        }
        if piece.len() == 1 && piece@[0] == '.' {
            assert(piece@ =~= seq!['.']);
        }
    }
    let ghost before = out@;
    if normal {
        out.push(piece);
        proof {
            assert(views(out@) =~= views(before).push(scan_pieces(path@, n as int).1));
        }
    }
    proof {
        assert(views(out@) =~= path_components(path@));
    }
    out
}

/// Whether two character vectors are equal.
fn chars_equal(a: &Vec<char>, b: &Vec<char>) -> (r: bool)
    ensures
        r == (a@ == b@),
{
    if a.len() != b.len() {
        return false;
    }
    let mut i: usize = 0;
    while i < a.len()
        invariant
            a@.len() == b@.len(),
            i <= a@.len(),
            forall|j: int| 0 <= j < i ==> a@[j] == b@[j],
        decreases a@.len() - i,
    {
        if a[i] != b[i] {
            return false;
        }
        i += 1;
    }
    assert(a@ =~= b@);
    true
}

/// Whether `path` lies under `base`, whole component by whole component.
pub fn is_under(path: &str, base: &str) -> (r: bool)
    ensures
        r == path_under(path@, base@),
{
    let pc = components_of(path);
    let bc = components_of(base);
    if bc.len() > pc.len() {
        return false;
    }
    let mut j: usize = 0;
    while j < bc.len()
        invariant
            bc@.len() <= pc@.len(),
            j <= bc@.len(),
            views(pc@) == path_components(path@),
            views(bc@) == path_components(base@),
            forall|k: int| 0 <= k < j ==> pc@[k]@ == bc@[k]@,
        decreases bc@.len() - j,
    {
        if !chars_equal(&pc[j], &bc[j]) {
            proof {
                let pcs = path_components(path@);
                let bcs = path_components(base@);
                assert(pcs[j as int] == pc@[j as int]@);
                assert(bcs[j as int] == bc@[j as int]@);
                assert(pcs.subrange(0, bcs.len() as int)[j as int] == pcs[j as int]);
            }
            return false;
        }
        j += 1;
    }
    proof {
        let pcs = path_components(path@);
        let bcs = path_components(base@);
        assert(pcs.subrange(0, bcs.len() as int) =~= bcs) by {
            assert forall|k: int| 0 <= k < bcs.len() implies pcs.subrange(0, bcs.len() as int)[k]
                == bcs[k] by {
                assert(pcs[k] == pc@[k]@);
                assert(bcs[k] == bc@[k]@);
            }
        }
    }
    true
}

/// Reading the first `i` characters of `p`: the span of the last named piece
/// finished so far, and where the piece being read began.
pub open spec fn scan_names(p: Seq<char>, i: int) -> (Option<(int, int)>, int)
    decreases i,
{
    if i <= 0 {
        (None, 0)
    } else {
        let (last, start) = scan_names(p, i - 1);
        if p[i - 1] == '/' {
            (
                if is_normal_piece(p.subrange(start, i - 1)) {
                    Some((start, i - 1))
                } else {
                    last
                },
                i,
            )
        } else {
            (last, start)
        }
    }
}

/// The span of the last named piece of `p`, if it has one.
pub open spec fn last_piece(p: Seq<char>) -> Option<(int, int)> {
    let (last, start) = scan_names(p, p.len() as int);
    if is_normal_piece(p.subrange(start, p.len() as int)) {
        Some((start, p.len() as int))
    } else {
        last
    }
}

/// The span of the file name of `p` (`std::path::Path::file_name`): its last
/// component, when that is a named piece other than `..`.
pub open spec fn file_name_span(p: Seq<char>) -> Option<(int, int)> {
    match last_piece(p) {
        Some((a, b)) => if p.subrange(a, b) == seq!['.', '.'] {
            None
        } else {
            Some((a, b))
        },
        None => None,
    }
}

/// Where the stem of the file name `p[a..b]` ends (`Path::file_stem`): at its
/// last `.`, unless there is none or it is the name's first character.
pub open spec fn stem_end(p: Seq<char>, a: int, b: int) -> int {
    let d = last_dot(p.subrange(a, b));
    if d > 0 {
        a + d
    } else {
        b
    }
}

/// `Path::with_extension(p, ext)` on Unix for a non-empty extension: the
/// path up to the end of its file stem, then `.` and `ext`; the path itself
/// when it has no file name.
pub open spec fn with_extension(p: Seq<char>, ext: Seq<char>) -> Seq<char> {
    match file_name_span(p) {
        Some((a, b)) => p.subrange(0, stem_end(p, a, b)) + seq!['.'] + ext,
        None => p,
    }
}

/// `"bmap"`, the extension of a block map file.
pub open spec fn bmap_extension() -> Seq<char> {
    seq!['b', 'm', 'a', 'p']
}

/// Whether `cs[from..to]` is a named piece: not empty and not `.`.
fn is_named(cs: &Vec<char>, from: usize, to: usize) -> (r: bool)
    requires
        from <= to <= cs@.len(),
    ensures
        r == is_normal_piece(cs@.subrange(from as int, to as int)),
{
    let r = to > from && !(to == from + 1 && cs[from] == '.');
    proof {
        let piece = cs@.subrange(from as int, to as int);
        if piece == seq!['.'] {
            assert(piece[0] == '.');
        }
        if to == from + 1 && cs@[from as int] == '.' {
            assert(piece =~= seq!['.']);
        }
    }
    r
}

/// The path of the block map that goes with an image: the image's path with
/// its extension replaced by `bmap` (or `.bmap` added), as
/// `Path::with_extension` makes it.
pub fn bmap_path(image: &str) -> (r: String)
    ensures
        r@ == with_extension(image@, bmap_extension()),
{
    let cs = chars_of(image);
    let n = cs.len();
    let mut last: Option<(usize, usize)> = None;
    let mut start: usize = 0;
    for i in 0..n
        invariant
            n == cs@.len(),
            cs@ == image@,
            start <= i,
            scan_names(image@, i as int).1 == start,
            match last {
                Some((a, b)) => scan_names(image@, i as int).0 == Some((a as int, b as int))
                    && a < b <= i,
                None => scan_names(image@, i as int).0 is None,
            },
    {
        if cs[i] == '/' {
            if is_named(&cs, start, i) {
                last = Some((start, i));
            }
            start = i + 1;
        }
    }
    if is_named(&cs, start, n) {
        last = Some((start, n));
    }
    let (a, b) = match last {
        None => {
            return String::from_str(image);
        },
        Some(span) => span,
    };
    assert(last_piece(image@) == Some((a as int, b as int)));
    if b - a == 2 && cs[a] == '.' && cs[a + 1] == '.' {
        assert(image@.subrange(a as int, b as int) =~= seq!['.', '.']);
        return String::from_str(image);
    }
    assert(image@.subrange(a as int, b as int) != seq!['.', '.']) by {
        if image@.subrange(a as int, b as int) == seq!['.', '.'] {
            assert(image@.subrange(a as int, b as int)[0] == '.');
            assert(image@.subrange(a as int, b as int)[1] == '.');
        }
    }
    let mut j: usize = b;
    while j > a + 1 && cs[j - 1] != '.'
        invariant
            a + 1 <= b <= n,
            n == cs@.len(),
            cs@ == image@,
            a + 1 <= j <= b,
            forall|k: int| j <= k < b ==> cs@[k] != '.',
        decreases j,
    {
        j -= 1;
    }
    let ghost name = image@.subrange(a as int, b as int);
    proof {
        let i = j - a;
        assert forall|k: int| i <= k < name.len() implies name[k] != '.' by {
            assert(name[k] == cs@[a + k]);
        }
        lemma_last_dot_before(name, i);
        let head = name.subrange(0, i);
        if j > a + 1 {
            assert(head.last() == cs@[j - 1]);
            assert(last_dot(head) == i - 1);
        } else if i == 1 {
            assert(head.drop_last() =~= Seq::<char>::empty());
            assert(last_dot(head.drop_last()) == -1);
            assert(last_dot(head) <= 0);
        } else {
            assert(head =~= Seq::<char>::empty());
        }
    }
    let e = if j > a + 1 { j - 1 } else { b };
    assert(e == stem_end(image@, a as int, b as int));
    let mut out = String::from_str(image.substring_char(0, e));
    out.append(".bmap");
    proof {
        reveal_strlit(".bmap");
        assert(out@ =~= image@.subrange(0, e as int) + seq!['.'] + bmap_extension());
    }
    out
}

} // verus!
