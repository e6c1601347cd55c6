//! Paths as text with `/` between their parts, and the places of the project's files. Where a system
//! writes another separator, the program writes `/` in its place before it hands a path in.
use crate::text::{
    char_lists, chars_le, from_chars, pieces, split_chars, str_eq, strings, text_le,
    text_order_is_total, to_chars,
};
use vstd::prelude::*;
use vstd::string::*;

verus! {

// ---------------------------------------------------------------------
// Paths
// ---------------------------------------------------------------------

/// `base` with `part` behind it. An absolute `part` stands alone.
pub open spec fn join(base: Seq<char>, part: Seq<char>) -> Seq<char> {
    if part.len() > 0 && part[0] == '/' {
        part
    } else if base.len() == 0 || base.last() == '/' {
        base + part
    } else {
        base + "/"@ + part
    }
}

/// `base` with `part` behind it.
pub fn join_path(base: &str, part: &str) -> (r: String)
    ensures
        r@ == join(base@, part@),
{
    let b = to_chars(base);
    let p = to_chars(part);
    if p.len() > 0 && p[0] == '/' {
        String::from_str(part)
    } else if b.len() == 0 || b[b.len() - 1] == '/' {
        String::from_str(base).concat(part)
    } else {
        String::from_str(base).concat("/").concat(part)
    }
}

/// A path without what its end adds to no part: separators and single dots behind one.
pub open spec fn without_tail(s: Seq<char>) -> Seq<char>
    decreases s.len(),
{
    if s.len() > 0 && s.last() == '/' {
        without_tail(s.drop_last())
    } else if s.len() > 1 && s.last() == '.' && s[s.len() - 2] == '/' {
        without_tail(s.drop_last().drop_last())
    } else {
        s
    }
}

/// What stands behind the last separator.
pub open spec fn last_part(s: Seq<char>) -> Seq<char>
    decreases s.len(),
{
    if s.len() == 0 || s.last() == '/' {
        Seq::empty()
    } else {
        last_part(s.drop_last()).push(s.last())
    }
}

/// The last part of a path, where it names a file or directory.
pub open spec fn file_name_of(path: Seq<char>) -> Option<Seq<char>> {
    let part = last_part(without_tail(path));
    if part.len() == 0 || part == "."@ || part == ".."@ {
        None
    } else {
        Some(part)
    }
}

/// The last part of a path, or nothing where it has none.
pub open spec fn name_or_empty(path: Seq<char>) -> Seq<char> {
    match file_name_of(path) {
        Some(n) => n,
        None => Seq::empty(),
    }
}

/// The last part of a path, where it names a file or directory.
pub fn file_name(path: &str) -> (r: Option<String>)
    ensures
        match r {
            Some(n) => file_name_of(path@) == Some(n@),
            None => file_name_of(path@) is None,
        },
{
    let chars = to_chars(path);
    let mut end: usize = chars.len();
    assert(chars@.take(end as int) =~= chars@);
    while end > 0 && (chars[end - 1] == '/' || (end > 1 && chars[end - 1] == '.' && chars[end - 2]
        == '/'))
        invariant
            end <= chars@.len(),
            without_tail(chars@) == without_tail(chars@.take(end as int)),
        decreases end,
    {
        let ghost cur = chars@.take(end as int);
        if chars[end - 1] == '/' {
            assert(cur.drop_last() =~= chars@.take(end - 1));
            end = end - 1;
        } else {
            assert(cur.drop_last().drop_last() =~= chars@.take(end - 2));
            end = end - 2;
        }
    }
    let ghost kept = chars@.take(end as int);
    assert(without_tail(kept) == kept);
    let mut start: usize = end;
    assert(chars@.subrange(end as int, end as int) =~= Seq::<char>::empty());
    assert(last_part(kept) + Seq::<char>::empty() =~= last_part(kept));
    while start > 0 && chars[start - 1] != '/'
        invariant
            start <= end <= chars@.len(),
            kept == chars@.take(end as int),
            last_part(kept) == last_part(chars@.take(start as int)) + chars@.subrange(
                start as int,
                end as int,
            ),
        decreases start,
    {
        proof {
            let cur = chars@.take(start as int);
            assert(cur.drop_last() =~= chars@.take(start - 1));
            assert(cur.last() == chars@[start - 1]);
            assert(last_part(cur.drop_last()).push(cur.last()) + chars@.subrange(
                start as int,
                end as int,
            ) =~= last_part(cur.drop_last()) + chars@.subrange(start - 1, end as int));
        }
        start = start - 1;
    }
    assert(last_part(chars@.take(start as int)) =~= Seq::<char>::empty());
    let name = from_chars(vstd::slice::slice_subrange(chars.as_slice(), start, end));
    assert(name@ =~= last_part(kept));
    if start == end || str_eq(name.as_str(), ".") || str_eq(name.as_str(), "..") {
        None
    } else {
        Some(name)
    }
}

/// The last part of a path, or nothing where it has none.
pub fn file_name_or_empty(path: &str) -> (r: String)
    ensures
        r@ == name_or_empty(path@),
{
    match file_name(path) {
        Some(n) => n,
        None => String::new(),
    }
}

/// Whether a piece between separators is a part of the path: an empty one at the start of a longer
/// path is its root, other empty ones are no parts, and a single dot is one only at the start.
pub open spec fn is_part(all: Seq<Seq<char>>, i: int) -> bool {
    if i == 0 {
        all[0].len() > 0 || all.len() > 1
    } else {
        all[i].len() > 0 && all[i] != "."@
    }
}

/// The parts among the first `n` pieces; the root is written as the separator.
pub open spec fn parts_among(all: Seq<Seq<char>>, n: nat) -> Seq<Seq<char>>
    decreases n,
{
    if n == 0 || n > all.len() {
        Seq::empty()
    } else {
        let before = parts_among(all, (n - 1) as nat);
        if !is_part(all, n - 1) {
            before
        } else if all[n - 1].len() == 0 {
            before.push("/"@)
        } else {
            before.push(all[n - 1])
        }
    }
}

/// The parts of a path: its root where it has one, then what stands between separators. Repeated
/// separators, those at the end, and single dots behind a separator are no parts.
pub open spec fn path_parts(path: Seq<char>) -> Seq<Seq<char>> {
    parts_among(pieces(path, '/'), pieces(path, '/').len())
}

/// Whether two paths have the same parts.
pub open spec fn same_path(a: Seq<char>, b: Seq<char>) -> bool {
    path_parts(a) == path_parts(b)
}

/// The rank of a part: the root, the directory itself, the one above it, and names.
pub open spec fn part_rank(part: Seq<char>) -> int {
    if part == "/"@ {
        0
    } else if part == "."@ {
        1
    } else if part == ".."@ {
        2
    } else {
        3
    }
}

/// The order of two parts: by rank, and names as texts.
pub open spec fn part_le(a: Seq<char>, b: Seq<char>) -> bool {
    if part_rank(a) != part_rank(b) {
        part_rank(a) < part_rank(b)
    } else {
        text_le(a, b)
    }
}

/// The order of two lists of path parts, part by part.
pub open spec fn parts_le(a: Seq<Seq<char>>, b: Seq<Seq<char>>) -> bool
    decreases a.len(),
{
    if a.len() == 0 {
        true
    } else if b.len() == 0 {
        false
    } else if a[0] != b[0] {
        part_le(a[0], b[0])
    } else {
        parts_le(a.skip(1), b.skip(1))
    }
}

/// The order of two paths: part by part, not character by character.
pub open spec fn path_le(a: Seq<char>, b: Seq<char>) -> bool {
    parts_le(path_parts(a), path_parts(b))
}

proof fn lemma_parts_order(a: Seq<Seq<char>>, b: Seq<Seq<char>>, c: Seq<Seq<char>>)
    ensures
        parts_le(a, b) || parts_le(b, a),
        parts_le(a, b) && parts_le(b, c) ==> parts_le(a, c),
        parts_le(a, b) && parts_le(b, a) ==> a == b,
    decreases a.len() + b.len() + c.len(),
{
    if a.len() > 0 && b.len() > 0 {
        let c0 = if c.len() > 0 { c[0] } else { Seq::empty() };
        let c1 = if c.len() > 0 { c.skip(1) } else { c };
        text_order_is_total(a[0], b[0], c0);
        text_order_is_total(b[0], a[0], c0);
        text_order_is_total(b[0], c0, a[0]);
        text_order_is_total(c0, b[0], a[0]);
        text_order_is_total(a[0], c0, b[0]);
        if a[0] == b[0] {
            lemma_parts_order(a.skip(1), b.skip(1), c1);
            if a.skip(1) == b.skip(1) {
                assert(a =~= b) by {
                    assert forall|i: int| 0 < i < a.len() implies a[i] == b[i] by {
                        assert(a.skip(1)[i - 1] == b.skip(1)[i - 1]);
                    }
                    assert(a.skip(1).len() == b.skip(1).len());
                }
            }
        }
    } else if a.len() == 0 && b.len() == 0 {
        assert(a =~= b);
    }
}

/// The order of paths compares any two of them, and does so consistently; those that share a place
/// in it are the same.
pub proof fn path_order_is_total(a: Seq<char>, b: Seq<char>, c: Seq<char>)
    ensures
        path_le(a, b) || path_le(b, a),
        path_le(a, b) && path_le(b, c) ==> path_le(a, c),
        path_le(a, b) && path_le(b, a) ==> same_path(a, b),
{
    lemma_parts_order(path_parts(a), path_parts(b), path_parts(c));
}

fn split_path(path: &str) -> (r: Vec<String>)
    ensures
        strings(r@) == path_parts(path@),
{
    let all = split_chars(to_chars(path).as_slice(), '/');
    let ghost views = pieces(path@, '/');
    let n: usize = all.len();
    let mut out: Vec<String> = Vec::new();
    let mut i: usize = 0;
    assert(strings(out@) =~= parts_among(views, 0));
    while i < n
        invariant
            i <= n,
            n == all@.len(),
            n == views.len(),
            char_lists(all@) == views,
            strings(out@) == parts_among(views, i as nat),
        decreases n - i,
    {
        let ghost before = out@;
        assert(views[i as int] == all@[i as int]@);
        let piece = from_chars(all[i].as_slice());
        let there: bool = if i == 0 {
            all[0].len() > 0 || n > 1
        } else {
            all[i].len() > 0 && !str_eq(piece.as_str(), ".")
        };
        assert(there == is_part(views, i as int));
        if there {
            let part = if all[i].len() == 0 {
                String::from_str("/")
            } else {
                piece
            };
            let ghost view = part@;
            out.push(part);
            assert(strings(out@) =~= strings(before).push(view));
        }
        i = i + 1;
    }
    out
}

fn rank_of(part: &str) -> (r: u8)
    ensures
        r == part_rank(part@),
{
    if str_eq(part, "/") {
        0
    } else if str_eq(part, ".") {
        1
    } else if str_eq(part, "..") {
        2
    } else {
        3
    }
}

/// Whether two paths have the same parts.
pub fn is_same_path(a: &str, b: &str) -> (r: bool)
    ensures
        r == same_path(a@, b@),
{
    let x = split_path(a);
    let y = split_path(b);
    let ghost xs = strings(x@);
    let ghost ys = strings(y@);
    if x.len() != y.len() {
        assert(xs.len() != ys.len());
        return false;
    }
    let mut i: usize = 0;
    while i < x.len()
        invariant
            i <= x@.len(),
            x@.len() == y@.len(),
            xs == strings(x@),
            ys == strings(y@),
            xs == path_parts(a@),
            ys == path_parts(b@),
            forall|k: int| 0 <= k < i ==> #[trigger] xs[k] == ys[k],
        decreases x@.len() - i,
    {
        assert(xs[i as int] == x@[i as int]@);
        assert(ys[i as int] == y@[i as int]@);
        if !str_eq(x[i].as_str(), y[i].as_str()) {
            return false;
        }
        i = i + 1;
    }
    assert(xs =~= ys);
    true
}

/// Whether one path does not come behind another.
pub fn path_not_behind(a: &str, b: &str) -> (r: bool)
    ensures
        r == path_le(a@, b@),
{
    let x = split_path(a);
    let y = split_path(b);
    let ghost xs = strings(x@);
    let ghost ys = strings(y@);
    let mut i: usize = 0;
    assert(xs.skip(0) =~= xs);
    assert(ys.skip(0) =~= ys);
    while i < x.len() && i < y.len()
        invariant
            i <= x@.len(),
            i <= y@.len(),
            xs == strings(x@),
            ys == strings(y@),
            xs == path_parts(a@),
            ys == path_parts(b@),
            parts_le(xs, ys) == parts_le(xs.skip(i as int), ys.skip(i as int)),
        decreases x@.len() - i,
    {
        proof {
            assert(xs.skip(i as int).skip(1) =~= xs.skip(i as int + 1));
            assert(ys.skip(i as int).skip(1) =~= ys.skip(i as int + 1));
            assert(xs.skip(i as int)[0] == x@[i as int]@);
            assert(ys.skip(i as int)[0] == y@[i as int]@);
        }
        if !str_eq(x[i].as_str(), y[i].as_str()) {
            let p: u8 = rank_of(x[i].as_str());
            let q: u8 = rank_of(y[i].as_str());
            if p != q {
                return p < q;
            }
            return chars_le(to_chars(x[i].as_str()).as_slice(), to_chars(y[i].as_str()).as_slice());
        }
        i = i + 1;
    }
    i >= x.len()
}

// ---------------------------------------------------------------------
// Places
// ---------------------------------------------------------------------

/// What is known of a directory that may be the project's root.
#[derive(Debug, Clone, Copy)]
pub struct RootMarkers {
    pub manifest_is_file: bool,
    pub models_is_dir: bool,
    pub models_exists: bool,
    pub bin_is_dir: bool,
    pub cargo_toml_exists: bool,
    pub crates_is_dir: bool,
}

/// Whether a directory is the root of an unpacked package or of the source tree.
pub open spec fn is_root(m: RootMarkers) -> bool {
    ||| m.manifest_is_file && m.models_is_dir && m.bin_is_dir
    ||| m.cargo_toml_exists && m.models_exists
    ||| m.cargo_toml_exists && m.crates_is_dir
}

/// How many directories are looked at, from the starting one upwards.
pub const ROOT_SEARCH_DEPTH: usize = 6;

/// Which directory is the project's root, given what is known of the starting directory and of
/// those above it, in that order.
pub fn discover_project_root_from(dirs: &[RootMarkers]) -> (r: Option<usize>)
    ensures
        match r {
            Some(k) => k < dirs@.len() && k < ROOT_SEARCH_DEPTH && is_root(dirs@[k as int])
                && forall|j: int| 0 <= j < k ==> !is_root(#[trigger] dirs@[j]),
            None => forall|j: int|
                0 <= j < dirs@.len() && j < ROOT_SEARCH_DEPTH ==> !is_root(#[trigger] dirs@[j]),
        },
{
    let mut i: usize = 0;
    while i < dirs.len() && i < ROOT_SEARCH_DEPTH
        invariant
            i <= dirs@.len(),
            i <= ROOT_SEARCH_DEPTH,
            forall|j: int| 0 <= j < i ==> !is_root(#[trigger] dirs@[j]),
        decreases dirs@.len() - i,
    {
        let m = dirs[i];
        if m.manifest_is_file && m.models_is_dir && m.bin_is_dir {
            return Some(i);
        }
        if m.cargo_toml_exists && m.models_exists {
            return Some(i);
        }
        if m.cargo_toml_exists && m.crates_is_dir {
            return Some(i);
        }
        i = i + 1;
    }
    None
}

/// The project's root: the configured directory where there is one, else the one found above the
/// program, else the working directory.
pub fn project_root(
    configured: Option<String>,
    configured_is_dir: bool,
    discovered: Option<String>,
    working_dir: Option<String>,
) -> (r: String)
    ensures
        r@ == (match configured {
            Some(c) if configured_is_dir => c@,
            _ => match discovered {
                Some(d) => d@,
                None => match working_dir {
                    Some(w) => w@,
                    None => "."@,
                },
            },
        }),
{
    if let Some(c) = configured {
        if configured_is_dir {
            return c;
        }
    }
    if let Some(d) = discovered {
        return d;
    }
    match working_dir {
        Some(w) => w,
        None => String::from_str("."),
    }
}

/// Where models are kept.
pub open spec fn models_place(root: Seq<char>) -> Seq<char> {
    join(root, "models"@)
}

/// Where generated audio goes.
pub open spec fn output_place(root: Seq<char>) -> Seq<char> {
    join(root, "output"@)
}

/// Where the server keeps its reference files.
pub open spec fn server_place(root: Seq<char>) -> Seq<char> {
    join(join(root, "runtime"@), "s2_server"@)
}

/// Where the tokenizer is looked for.
pub open spec fn tokenizer_place(root: Seq<char>) -> Seq<char> {
    join(models_place(root), "tokenizer.json"@)
}

/// Where models are kept.
pub fn models_dir(root: &str) -> (r: String)
    ensures
        r@ == models_place(root@),
{
    join_path(root, "models")
}

/// Where generated audio goes.
pub fn output_dir(root: &str) -> (r: String)
    ensures
        r@ == output_place(root@),
{
    join_path(root, "output")
}

/// Where the server keeps its reference files.
pub fn server_workdir(root: &str) -> (r: String)
    ensures
        r@ == server_place(root@),
{
    let runtime = join_path(root, "runtime");
    join_path(runtime.as_str(), "s2_server")
}

/// Where the tokenizer is looked for.
pub fn default_tokenizer_path(root: &str) -> (r: String)
    ensures
        r@ == tokenizer_place(root@),
{
    let models = models_dir(root);
    join_path(models.as_str(), "tokenizer.json")
}

} // verus!
