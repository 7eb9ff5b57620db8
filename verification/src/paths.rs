//! Mapping a requested URL path onto a directory of files, refusing any
//! path that climbs out of it. Components are read as `std::path` reads
//! them on the target: on Unix only `/` separates them; on Windows `\\`
//! separates them too, a leading `\\` names a root, and a component that
//! starts with a drive letter and `:` names a drive.
use vstd::prelude::*;

use crate::headers::{lemma_split_append, lemma_split_on_len, split_on};
use crate::text::{chars_of, string_of};

verus! {

/// How a target reads paths.
#[derive(Clone, Copy, Debug, PartialEq, Eq, Structural)]
pub enum PathStyle {
    /// Only `/` separates components.
    Unix,
    /// `/` and `\\` separate components; drives and roots start a path.
    Windows,
}

/// `s` without its leading `c`s.
pub open spec fn trim_leading(s: Seq<char>, c: char) -> Seq<char>
    decreases s.len(),
{
    if s.len() > 0 && s[0] == c {
        trim_leading(s.drop_first(), c)
    } else {
        s
    }
}

/// The `..` component.
pub open spec fn parent_piece() -> Seq<char> {
    seq!['.', '.']
}

/// A piece that names a file or directory: not empty, not `.`, not `..`.
pub open spec fn is_normal_piece(p: Seq<char>) -> bool {
    p.len() > 0 && p != seq!['.'] && p != parent_piece()
}

/// The separator `PathBuf::push` puts between components.
pub open spec fn separator_of(style: PathStyle) -> char {
    match style {
        PathStyle::Unix => '/',
        PathStyle::Windows => '\\',
    }
}

/// A character that separates components.
pub open spec fn is_separator(style: PathStyle, c: char) -> bool {
    c == '/' || (style is Windows && c == '\\')
}

/// An ASCII letter.
pub open spec fn is_ascii_letter(c: char) -> bool {
    ('a' <= c <= 'z') || ('A' <= c <= 'Z')
}

/// A component that names a drive on Windows: a letter and `:` at its start.
pub open spec fn is_drive_piece(p: Seq<char>) -> bool {
    p.len() >= 2 && is_ascii_letter(p[0]) && p[1] == ':'
}

/// A path that is a drive and nothing else, such as `C:`.
pub open spec fn is_drive_only(p: Seq<char>) -> bool {
    p.len() == 2 && is_drive_piece(p)
}

/// `PathBuf::push` of a relative component: a separator goes between when
/// the path is not empty and does not already end with one, except after a
/// bare drive on Windows.
pub open spec fn path_push(style: PathStyle, buf: Seq<char>, comp: Seq<char>) -> Seq<char> {
    if style is Windows && is_drive_only(buf) {
        buf + comp
    } else if buf.len() > 0 && !is_separator(style, buf.last()) {
        buf + seq![separator_of(style)] + comp
    } else {
        buf + comp
    }
}

/// The base with every normal piece pushed onto it, in order.
pub open spec fn joined(style: PathStyle, base: Seq<char>, pieces: Seq<Seq<char>>) -> Seq<char>
    decreases pieces.len(),
{
    if pieces.len() == 0 {
        base
    } else {
        let b = joined(style, base, pieces.drop_last());
        if is_normal_piece(pieces.last()) {
            path_push(style, b, pieces.last())
        } else {
            b
        }
    }
}

/// The text with every separator written as `/`.
pub open spec fn unify_separators(style: PathStyle, s: Seq<char>) -> Seq<char> {
    s.map_values(|c: char| if style is Windows && c == '\\' { '/' } else { c })
}

/// The components of a requested path: its pieces between separators, once
/// the leading `/`s are gone.
pub open spec fn requested_pieces(style: PathStyle, requested: Seq<char>) -> Seq<Seq<char>> {
    split_on(unify_separators(style, trim_leading(requested, '/')), '/')
}

/// A request that, once its leading `/`s are gone, starts at a root (`\\`
/// on Windows).
pub open spec fn starts_at_root(style: PathStyle, requested: Seq<char>) -> bool {
    let t = trim_leading(requested, '/');
    style is Windows && t.len() > 0 && t[0] == '\\'
}

/// A component that leaves the base: `..`, or a drive on Windows.
pub open spec fn is_refused_piece(style: PathStyle, p: Seq<char>) -> bool {
    p == parent_piece() || (style is Windows && is_drive_piece(p))
}

/// The file a request names under `base`: `None` when it starts at a root
/// or a component leaves the base; otherwise `base` with the components
/// pushed on, `.` and empty ones skipped.
pub open spec fn validated_path(style: PathStyle, base: Seq<char>, requested: Seq<char>) -> Option<Seq<char>> {
    let pieces = requested_pieces(style, requested);
    if starts_at_root(style, requested) || exists|i: int|
        0 <= i < pieces.len() && is_refused_piece(style, pieces[i]) {
        None
    } else {
        Some(joined(style, base, pieces))
    }
}

/// The result `r` is the path `v` describes.
pub open spec fn path_found(r: Option<String>, v: Option<Seq<char>>) -> bool {
    match v {
        Some(p) => r matches Some(s) && s@ == p,
        None => r is None,
    }
}

/// Whether `std::path::is_separator` takes `c` for a separator of path
/// components: on Unix only `/`, on Windows `/` and `\\`. The answer is fixed
/// when the library is built, so every run of a build gives the same one;
/// which target the library is built for is not stated.
pub uninterp spec fn separates_paths(c: char) -> bool;

/// `std::path::is_separator`.
#[verifier::external_body]
fn is_path_separator(c: char) -> (b: bool)
    ensures
        b == separates_paths(c),
{
    std::path::is_separator(c)
}

/// The style in which the target the library is built for reads paths.
pub open spec fn target_style() -> PathStyle {
    if separates_paths('\\') {
        PathStyle::Windows
    } else {
        PathStyle::Unix
    }
}

/// How paths are read on the target the library was built for.
pub fn target_path_style() -> (style: PathStyle)
    ensures
        style == target_style(),
{
    if is_path_separator('\\') {
        PathStyle::Windows
    } else {
        PathStyle::Unix
    }
}

/// The separator that `PathBuf::push` puts between components.
fn separator(style: PathStyle) -> (c: char)
    ensures
        c == separator_of(style),
{
    match style {
        PathStyle::Unix => '/',
        PathStyle::Windows => '\\',
    }
}

/// True when `c` separates components.
fn is_separator_char(style: PathStyle, c: char) -> (b: bool)
    ensures
        b == is_separator(style, c),
{
    match style {
        PathStyle::Unix => c == '/',
        PathStyle::Windows => c == '/' || c == '\\',
    }
}

/// True when `cs[start..end]` is `..`.
fn is_parent_at(cs: &Vec<char>, start: usize, end: usize) -> (b: bool)
    requires
        start <= end <= cs@.len(),
    ensures
        b == (cs@.subrange(start as int, end as int) == parent_piece()),
{
    let ghost piece = cs@.subrange(start as int, end as int);
    if end - start != 2 {
        assert(piece.len() != parent_piece().len());
        false
    } else if cs[start] == '.' && cs[start + 1] == '.' {
        assert(piece =~= parent_piece());
        true
    } else {
        assert(piece[0] == cs@[start as int]);
        assert(piece[1] == cs@[start + 1]);
        assert(piece[0] != parent_piece()[0] || piece[1] != parent_piece()[1]);
        false
    }
}

/// True when `cs[start..end]` names a file or directory.
fn is_normal_at(cs: &Vec<char>, start: usize, end: usize) -> (b: bool)
    requires
        start <= end <= cs@.len(),
    ensures
        b == is_normal_piece(cs@.subrange(start as int, end as int)),
{
    let ghost piece = cs@.subrange(start as int, end as int);
    if end == start || is_parent_at(cs, start, end) {
        return false;
    }
    if end - start != 1 {
        assert(piece.len() != seq!['.'].len());
        return true;
    }
    if cs[start] == '.' {
        assert(piece =~= seq!['.']);
        return false;
    }
    assert(piece[0] == cs@[start as int]);
    assert(piece[0] != seq!['.'][0]);
    true
}

/// True when `cs[start..end]` names a drive.
fn is_drive_at(cs: &Vec<char>, start: usize, end: usize) -> (b: bool)
    requires
        start <= end <= cs@.len(),
    ensures
        b == is_drive_piece(cs@.subrange(start as int, end as int)),
{
    let ghost piece = cs@.subrange(start as int, end as int);
    if end - start < 2 {
        return false;
    }
    assert(piece[0] == cs@[start as int]);
    assert(piece[1] == cs@[start + 1]);
    let c = cs[start];
    (('a' <= c && c <= 'z') || ('A' <= c && c <= 'Z')) && cs[start + 1] == ':'
}

/// True when `cs[start..end]` leaves the base.
fn is_refused_at(style: PathStyle, cs: &Vec<char>, start: usize, end: usize) -> (b: bool)
    requires
        start <= end <= cs@.len(),
    ensures
        b == is_refused_piece(style, cs@.subrange(start as int, end as int)),
{
    let windows = match style {
        PathStyle::Unix => false,
        PathStyle::Windows => true,
    };
    is_parent_at(cs, start, end) || (windows && is_drive_at(cs, start, end))
}

/// Pushes `cs[start..end]` onto `buf` when it is a normal piece.
fn push_piece(style: PathStyle, buf: &mut Vec<char>, cs: &Vec<char>, start: usize, end: usize)
    requires
        start <= end <= cs@.len(),
    ensures
        is_normal_piece(cs@.subrange(start as int, end as int)) ==> final(buf)@ == path_push(
            style,
            old(buf)@,
            cs@.subrange(start as int, end as int),
        ),
        !is_normal_piece(cs@.subrange(start as int, end as int)) ==> final(buf)@ == old(buf)@,
{
    if !is_normal_at(cs, start, end) {
        return;
    }
    let ghost before = buf@;
    let windows = match style {
        PathStyle::Unix => false,
        PathStyle::Windows => true,
    };
    let drive_only = windows && buf.len() == 2 && is_drive_at(buf, 0, 2);
    assert(buf@.len() == 2 ==> buf@.subrange(0, 2) =~= buf@);
    if !drive_only && buf.len() > 0 && !is_separator_char(style, buf[buf.len() - 1]) {
        let sep = separator(style);
        buf.push(sep);
    }
    let ghost mid = buf@;
    let mut i = start;
    while i < end
        invariant
            start <= i <= end <= cs@.len(),
            buf@ == mid + cs@.subrange(start as int, i as int),
        decreases end - i,
    {
        buf.push(cs[i]);
        assert(cs@.subrange(start as int, i + 1) =~= cs@.subrange(start as int, i as int).push(cs@[i as int]));
        i = i + 1;
    }
    let ghost sep_added = !(style is Windows && is_drive_only(before)) && before.len() > 0 && !is_separator(
        style,
        before.last(),
    );
    assert(sep_added ==> mid =~= before + seq![separator_of(style)]);
    assert(!sep_added ==> mid =~= before);
}

/// The file that a request for `requested_path` names under `base_path`,
/// read in the given style, or `None` when the request leaves it: through
/// a root, a drive or `..`.
pub fn build_and_validate_path_in(style: PathStyle, base_path: &str, requested_path: &str) -> (r: Option<String>)
    ensures
        path_found(r, validated_path(style, base_path@, requested_path@)),
{
    let windows = match style {
        PathStyle::Unix => false,
        PathStyle::Windows => true,
    };
    let cs = chars_of(requested_path);
    let n = cs.len();
    let mut first: usize = 0;
    assert(cs@.skip(0) =~= cs@);
    while first < n && cs[first] == '/'
        invariant
            n == cs@.len(),
            first <= n,
            trim_leading(cs@, '/') == trim_leading(cs@.skip(first as int), '/'),
        decreases n - first,
    {
        assert(cs@.skip(first as int).drop_first() =~= cs@.skip(first + 1));
        first = first + 1;
    }
    let ghost trimmed = cs@.skip(first as int);
    assert(trim_leading(trimmed, '/') == trimmed);
    if windows && first < n && cs[first] == '\\' {
        assert(trimmed[0] == cs@[first as int]);
        return None;
    }
    assert(!starts_at_root(style, requested_path@)) by {
        if first < n {
            assert(trimmed[0] == cs@[first as int]);
        }
    }
    let mut us: Vec<char> = Vec::new();
    let mut j = first;
    while j < n
        invariant
            n == cs@.len(),
            first <= j <= n,
            windows == (style is Windows),
            us@ == unify_separators(style, cs@.subrange(first as int, j as int)),
        decreases n - j,
    {
        let c = cs[j];
        let u = if windows && c == '\\' {
            '/'
        } else {
            c
        };
        us.push(u);
        assert(unify_separators(style, cs@.subrange(first as int, j + 1)) =~= unify_separators(
            style,
            cs@.subrange(first as int, j as int),
        ).push(u));
        j = j + 1;
    }
    assert(cs@.subrange(first as int, n as int) =~= trimmed);
    let ghost rest = us@;
    assert(rest == unify_separators(style, trim_leading(requested_path@, '/')));
    let un = us.len();
    let mut buf = chars_of(base_path);
    let mut refused = false;
    let mut start: usize = 0;
    let mut i: usize = 0;
    let ghost mut pieces: Seq<Seq<char>> = Seq::empty();
    assert(rest.take(0) =~= Seq::<char>::empty());
    assert(us@.subrange(0, 0) =~= Seq::<char>::empty());
    while i < un
        invariant
            un == us@.len(),
            rest == us@,
            start <= i <= un,
            split_on(rest.take(i as int), '/') == pieces.push(us@.subrange(start as int, i as int)),
            buf@ == joined(style, base_path@, pieces),
            refused == exists|k: int| 0 <= k < pieces.len() && is_refused_piece(style, pieces[k]),
        decreases un - i,
    {
        assert(rest.take(i + 1).drop_last() =~= rest.take(i as int));
        assert(rest.take(i + 1).last() == us@[i as int]);
        if us[i] == '/' {
            let ghost piece = us@.subrange(start as int, i as int);
            if is_refused_at(style, &us, start, i) {
                refused = true;
            }
            push_piece(style, &mut buf, &us, start, i);
            proof {
                let np = pieces.push(piece);
                assert(np.drop_last() =~= pieces);
                assert(np.last() == piece);
                if refused {
                    if is_refused_piece(style, piece) {
                        assert(is_refused_piece(style, np[pieces.len() as int]));
                    } else {
                        let k = choose|k: int| 0 <= k < pieces.len() && is_refused_piece(style, pieces[k]);
                        assert(np[k] == pieces[k]);
                    }
                } else {
                    assert forall|k: int| 0 <= k < np.len() implies !is_refused_piece(style, np[k]) by {
                        if k < pieces.len() {
                            assert(np[k] == pieces[k]);
                        }
                    }
                }
                pieces = np;
                assert(us@.subrange(i + 1, i + 1) =~= Seq::<char>::empty());
            }
            start = i + 1;
        } else {
            assert(us@.subrange(start as int, i + 1) =~= us@.subrange(start as int, i as int).push(us@[i as int]));
        }
        i = i + 1;
    }
    let ghost piece = us@.subrange(start as int, un as int);
    if is_refused_at(style, &us, start, un) {
        refused = true;
    }
    push_piece(style, &mut buf, &us, start, un);
    proof {
        assert(rest.take(un as int) =~= rest);
        let np = pieces.push(piece);
        assert(np.drop_last() =~= pieces);
        assert(np.last() == piece);
        assert(np == requested_pieces(style, requested_path@));
        if refused {
            if is_refused_piece(style, piece) {
                assert(is_refused_piece(style, np[pieces.len() as int]));
            } else {
                let k = choose|k: int| 0 <= k < pieces.len() && is_refused_piece(style, pieces[k]);
                assert(np[k] == pieces[k]);
            }
        } else {
            assert forall|k: int| 0 <= k < np.len() implies !is_refused_piece(style, np[k]) by {
                if k < pieces.len() {
                    assert(np[k] == pieces[k]);
                }
            }
        }
    }
    if refused {
        return None;
    }
    let len = buf.len();
    assert(buf@.subrange(0, len as int) =~= buf@);
    Some(string_of(&buf, 0, len))
}

/// The file that a request for `requested_path` names under `base_path`,
/// with paths read as the target the library was built for reads them; or
/// `None` when the request leaves it.
pub fn build_and_validate_path(base_path: &str, requested_path: &str) -> (r: Option<String>)
    ensures
        path_found(r, validated_path(target_style(), base_path@, requested_path@)),
{
    build_and_validate_path_in(target_path_style(), base_path, requested_path)
}

/// No piece of a split holds the separator, nor any character that the
/// text does not hold.
pub proof fn lemma_split_pieces_free_of(s: Seq<char>, sep: char, c: char)
    requires
        c == sep || forall|i: int| 0 <= i < s.len() ==> s[i] != c,
    ensures
        forall|k: int, j: int|
            0 <= k < split_on(s, sep).len() && 0 <= j < split_on(s, sep)[k].len() ==> #[trigger] split_on(
                s,
                sep,
            )[k][j] != c,
    decreases s.len(),
{
    if s.len() > 0 {
        assert(c != sep ==> forall|i: int| 0 <= i < s.drop_last().len() ==> s.drop_last()[i] != c) by {
            if c != sep {
                assert forall|i: int| 0 <= i < s.drop_last().len() implies s.drop_last()[i] != c by {
                    assert(s.drop_last()[i] == s[i]);
                }
            }
        }
        lemma_split_pieces_free_of(s.drop_last(), sep, c);
        lemma_split_on_len(s.drop_last(), sep);
        let r = split_on(s.drop_last(), sep);
        assert forall|k: int, j: int|
            0 <= k < split_on(s, sep).len() && 0 <= j < split_on(s, sep)[k].len() implies #[trigger] split_on(
            s,
            sep,
        )[k][j] != c by {
            if s.last() == sep {
                if k < r.len() {
                    assert(split_on(s, sep)[k] == r[k]);
                }
            } else {
                if k < r.len() - 1 {
                    assert(split_on(s, sep)[k] == r[k]);
                } else {
                    assert(split_on(s, sep)[k] == r.last().push(s.last()));
                    if j < r.last().len() {
                        assert(r[r.len() - 1][j] != c);
                    } else {
                        assert(s.last() == s[s.len() - 1]);
                    }
                }
            }
        }
    }
}

/// A tail of a served path: every piece between its separators is empty
/// or names a file or directory (so none is `..`), and on Windows it holds
/// no `/` and no piece is a drive.
pub open spec fn safe_tail(style: PathStyle, t: Seq<char>) -> bool {
    &&& style is Windows ==> forall|i: int| 0 <= i < t.len() ==> t[i] != '/'
    &&& forall|k: int|
        0 <= k < split_on(t, separator_of(style)).len() ==> (#[trigger] split_on(t, separator_of(style))[k]).len()
            == 0 || (is_normal_piece(split_on(t, separator_of(style))[k]) && !(style is Windows
            && is_drive_piece(split_on(t, separator_of(style))[k])))
}

/// A piece free of the separator splits into itself.
proof fn lemma_split_single(c: Seq<char>, sep: char)
    requires
        forall|j: int| 0 <= j < c.len() ==> c[j] != sep,
    ensures
        split_on(c, sep) == seq![c],
{
    lemma_split_append(Seq::empty(), c, sep);
    assert(Seq::<char>::empty() + c =~= c);
    assert(split_on(Seq::<char>::empty(), sep) =~= seq![Seq::<char>::empty()]);
    assert(split_on(c, sep) =~= seq![c]);
}

/// Pushing pieces free of separators, none of them refused, onto a base
/// only appends a safe tail, which does not end with a separator and is no
/// bare drive on Windows unless it is empty.
#[verifier::rlimit(60)]
proof fn lemma_joined_tail(style: PathStyle, base: Seq<char>, pieces: Seq<Seq<char>>)
    requires
        forall|k: int, j: int|
            0 <= k < pieces.len() && 0 <= j < pieces[k].len() ==> #[trigger] pieces[k][j] != '/' && (
            style is Windows ==> pieces[k][j] != '\\'),
        forall|k: int| 0 <= k < pieces.len() && is_normal_piece(#[trigger] pieces[k]) ==> !is_refused_piece(
            style,
            pieces[k],
        ),
    ensures
        joined(style, base, pieces).len() >= base.len(),
        joined(style, base, pieces).take(base.len() as int) == base,
        safe_tail(style, joined(style, base, pieces).skip(base.len() as int)),
        joined(style, base, pieces).len() > base.len() ==> !is_separator(style, joined(style, base, pieces).last()),
        joined(style, base, pieces).len() > base.len() && style is Windows ==> !is_drive_only(
            joined(style, base, pieces),
        ),
    decreases pieces.len(),
{
    let sep = separator_of(style);
    if pieces.len() == 0 {
        assert(base.take(base.len() as int) =~= base);
        assert(base.skip(base.len() as int) =~= Seq::<char>::empty());
        assert(split_on(Seq::<char>::empty(), sep) =~= seq![Seq::<char>::empty()]);
    } else {
        let rest = pieces.drop_last();
        assert forall|k: int, j: int| 0 <= k < rest.len() && 0 <= j < rest[k].len() implies #[trigger] rest[k][j]
            != '/' && (style is Windows ==> rest[k][j] != '\\') by {
            assert(rest[k] == pieces[k]);
        }
        assert forall|k: int| 0 <= k < rest.len() && is_normal_piece(#[trigger] rest[k]) implies !is_refused_piece(
            style,
            rest[k],
        ) by {
            assert(rest[k] == pieces[k]);
        }
        lemma_joined_tail(style, base, rest);
        let b = joined(style, base, rest);
        let t = b.skip(base.len() as int);
        assert(b =~= base + t);
        let c = pieces.last();
        if is_normal_piece(c) {
            assert forall|j: int| 0 <= j < c.len() implies c[j] != '/' && (style is Windows ==> c[j] != '\\') by {
                assert(pieces[pieces.len() - 1][j] != '/');
            }
            assert(!is_refused_piece(style, c)) by {
                assert(pieces[pieces.len() - 1] == c);
            }
            assert forall|j: int| 0 <= j < c.len() implies c[j] != sep by {}
            lemma_split_on_len(t, sep);
            if style is Windows && is_drive_only(b) {
                assert(t.len() == 0);
                assert(joined(style, base, pieces) =~= base + c);
                lemma_split_single(c, sep);
                assert(joined(style, base, pieces).take(base.len() as int) =~= base);
                assert(joined(style, base, pieces).skip(base.len() as int) =~= c);
            } else if b.len() > 0 && !is_separator(style, b.last()) {
                let t2 = t + seq![sep] + c;
                assert(joined(style, base, pieces) =~= base + t2);
                assert((t + seq![sep]).drop_last() =~= t);
                assert(split_on(t + seq![sep], sep) == split_on(t, sep).push(Seq::empty()));
                lemma_split_append(t + seq![sep], c, sep);
                assert(t + seq![sep] + c =~= t2);
                let st = split_on(t, sep);
                assert(split_on(t2, sep) =~= st.push(Seq::<char>::empty() + c));
                assert(Seq::<char>::empty() + c =~= c);
                assert forall|k: int| 0 <= k < split_on(t2, sep).len() implies (#[trigger] split_on(t2, sep)[k]).len()
                    == 0 || (is_normal_piece(split_on(t2, sep)[k]) && !(style is Windows && is_drive_piece(
                    split_on(t2, sep)[k],
                ))) by {
                    if k < st.len() {
                        assert(split_on(t2, sep)[k] == st[k]);
                    }
                }
                assert(style is Windows ==> forall|i: int| 0 <= i < t2.len() ==> t2[i] != '/') by {
                    if style is Windows {
                        assert forall|i: int| 0 <= i < t2.len() implies t2[i] != '/' by {
                            if i < t.len() {
                                assert(t2[i] == t[i]);
                            } else if i > t.len() {
                                assert(t2[i] == c[i - t.len() - 1]);
                            }
                        }
                    }
                }
                assert(joined(style, base, pieces).take(base.len() as int) =~= base);
                assert(joined(style, base, pieces).skip(base.len() as int) =~= t2);
                assert(joined(style, base, pieces).last() == c.last());
            } else {
                assert(t.len() == 0);
                assert(joined(style, base, pieces) =~= base + c);
                lemma_split_single(c, sep);
                assert(joined(style, base, pieces).take(base.len() as int) =~= base);
                assert(joined(style, base, pieces).skip(base.len() as int) =~= c);
                if style is Windows && base.len() > 0 && joined(style, base, pieces).len() == 2 {
                    assert(joined(style, base, pieces)[0] == base[0]);
                    assert(base.last() == base[0]);
                }
            }
        }
    }
}

/// A path built for a request, in either style, always starts with the
/// base directory, and what follows is made of pieces that are empty or
/// name a file or directory: neither `..` nor a root nor a drive can take it
/// out of the base.
pub proof fn lemma_validated_path_stays_under_base(style: PathStyle, base: Seq<char>, requested: Seq<char>)
    ensures
        validated_path(style, base, requested) matches Some(p) ==> {
            &&& p.len() >= base.len()
            &&& p.take(base.len() as int) == base
            &&& safe_tail(style, p.skip(base.len() as int))
        },
{
    let pieces = requested_pieces(style, requested);
    let u = unify_separators(style, trim_leading(requested, '/'));
    lemma_split_pieces_free_of(u, '/', '/');
    if style is Windows {
        assert forall|i: int| 0 <= i < u.len() implies u[i] != '\\' by {}
        lemma_split_pieces_free_of(u, '/', '\\');
    }
    if validated_path(style, base, requested) is Some {
        assert forall|k: int| 0 <= k < pieces.len() && is_normal_piece(#[trigger] pieces[k]) implies !is_refused_piece(
            style,
            pieces[k],
        ) by {}
        lemma_joined_tail(style, base, pieces);
    }
}

/// A drive at the start of a piece on Windows: a letter and `:`.
pub open spec fn starts_with_drive_letter(p: Seq<char>) -> bool {
    p.len() >= 2 && p[1] == ':' && (('a' <= p[0] <= 'z') || ('A' <= p[0] <= 'Z'))
}

/// Read the Unix way, a request is always served unless one of its
/// components (the pieces between `/`s once the leading `/`s are gone) is
/// `..`: any other name, whatever characters it holds, is accepted.
pub proof fn law_unix_accepts_all_but_parents(base: Seq<char>, requested: Seq<char>)
    requires
        forall|k: int|
            0 <= k < split_on(trim_leading(requested, '/'), '/').len() ==> #[trigger] split_on(
                trim_leading(requested, '/'),
                '/',
            )[k] != seq!['.', '.'],
    ensures
        validated_path(PathStyle::Unix, base, requested) is Some,
{
    let t = trim_leading(requested, '/');
    assert(unify_separators(PathStyle::Unix, t) =~= t);
}

/// Read the Windows way, a request with no `\\` is served unless one of its
/// components is `..` or starts with a drive.
pub proof fn law_windows_accepts_all_but_parents_and_drives(base: Seq<char>, requested: Seq<char>)
    requires
        forall|i: int| 0 <= i < trim_leading(requested, '/').len() ==> trim_leading(requested, '/')[i] != '\\',
        forall|k: int|
            0 <= k < split_on(trim_leading(requested, '/'), '/').len() ==> #[trigger] split_on(
                trim_leading(requested, '/'),
                '/',
            )[k] != seq!['.', '.'] && !starts_with_drive_letter(split_on(trim_leading(requested, '/'), '/')[k]),
    ensures
        validated_path(PathStyle::Windows, base, requested) is Some,
{
    let t = trim_leading(requested, '/');
    assert(unify_separators(PathStyle::Windows, t) =~= t);
    if t.len() > 0 {
        assert(t[0] != '\\');
    }
}

/// A request for one name under a base that does not end with a separator
/// gives the base, the target's separator and the name: `/srv` and
/// `my-page.html` give `/srv/my-page.html` on Unix and `/srv\\my-page.html`
/// on Windows.
pub proof fn law_single_name_is_appended(style: PathStyle, base: Seq<char>, name: Seq<char>)
    requires
        name.len() > 0,
        name != seq!['.'],
        name != seq!['.', '.'],
        forall|i: int| 0 <= i < name.len() ==> name[i] != '/' && name[i] != '\\',
        style is Windows ==> !starts_with_drive_letter(name),
        base.len() > 2,
        base.last() != '/',
        base.last() != '\\',
    ensures
        validated_path(style, base, name) == Some(
            base + seq![if style is Windows { '\\' } else { '/' }] + name,
        ),
{
    assert(trim_leading(name, '/') == name);
    assert(unify_separators(style, name) =~= name);
    lemma_split_single(name, '/');
    let pieces = requested_pieces(style, name);
    assert(pieces == seq![name]);
    assert(pieces.drop_last() =~= Seq::<Seq<char>>::empty());
    assert(!is_refused_piece(style, pieces[0]));
    assert forall|i: int| 0 <= i < pieces.len() implies !is_refused_piece(style, pieces[i]) by {}
    assert(name[0] != '\\');
    assert(!starts_at_root(style, name));
    assert(joined(style, base, pieces.drop_last()) == base);
    assert(is_normal_piece(pieces.last()));
    assert(!is_drive_only(base));
    assert(!is_separator(style, base.last()));
    assert(joined(style, base, pieces) == path_push(style, base, name));
    assert(separator_of(style) == if style is Windows { '\\' } else { '/' });
}

} // verus!
