//! Paths in the Unix notation: what their parts are, and how they are joined.
use vstd::prelude::*;

use crate::text::{chars_of, string_of};
use crate::words::{join2, join3, sub_chars};

verus! {

/// One part of a path.
#[derive(Debug, PartialEq, Eq)]
pub enum PathPart {
    Root,
    Current,
    Parent,
    Name(String),
}

/// One part of a path, by its text.
pub enum Part {
    Root,
    Current,
    Parent,
    Name(Seq<char>),
}

impl View for PathPart {
    type V = Part;

    open spec fn view(&self) -> Part {
        match self {
            PathPart::Root => Part::Root,
            PathPart::Current => Part::Current,
            PathPart::Parent => Part::Parent,
            PathPart::Name(name) => Part::Name(name@),
        }
    }
}

/// The parts of a list, by their text.
pub open spec fn parts_view(parts: Seq<PathPart>) -> Seq<Part> {
    parts.map_values(|p: PathPart| p@)
}

/// Whether a path starts at the root.
pub open spec fn absolute(path: Seq<char>) -> bool {
    path.len() > 0 && path[0] == '/'
}

/// The next slash from index `i` on, or the end.
pub open spec fn slash_from(path: Seq<char>, i: int) -> int
    decreases path.len() - i,
{
    if i < path.len() && path[i] != '/' {
        slash_from(path, i + 1)
    } else {
        i
    }
}

/// What the text between two slashes stands for: nothing if it is empty, the
/// parent for two dots, nothing for one dot unless a relative path starts with
/// it, and else a name.
pub open spec fn part_of(segment: Seq<char>, first_of_relative: bool) -> Option<Part> {
    if segment.len() == 0 {
        None
    } else if segment == seq!['.'] {
        if first_of_relative {
            Some(Part::Current)
        } else {
            None
        }
    } else if segment == seq!['.', '.'] {
        Some(Part::Parent)
    } else {
        Some(Part::Name(segment))
    }
}

/// A part as a list of none or one.
pub open spec fn part_list(part: Option<Part>) -> Seq<Part> {
    match part {
        None => Seq::empty(),
        Some(p) => seq![p],
    }
}

/// The parts of a path from index `i` on.
pub open spec fn parts_from(path: Seq<char>, i: int) -> Seq<Part>
    decreases path.len() - i,
{
    let j = slash_from(path, i);
    if !(0 <= i <= j <= path.len()) {
        Seq::empty()
    } else {
        let here = part_list(part_of(path.subrange(i, j), i == 0));
        if j < path.len() {
            here + parts_from(path, j + 1)
        } else {
            here
        }
    }
}

/// The parts of a path.
pub open spec fn path_parts(path: Seq<char>) -> Seq<Part> {
    if absolute(path) {
        seq![Part::Root] + parts_from(path, 0)
    } else {
        parts_from(path, 0)
    }
}

pub proof fn lemma_slash_from(path: Seq<char>, i: int)
    requires
        0 <= i <= path.len(),
    ensures
        i <= slash_from(path, i) <= path.len(),
        slash_from(path, i) < path.len() ==> path[slash_from(path, i)] == '/',
        forall|k: int| i <= k < slash_from(path, i) ==> path[k] != '/',
    decreases path.len() - i,
{
    if i < path.len() && path[i] != '/' {
        lemma_slash_from(path, i + 1);
    }
}

/// Whether a path starts at the root.
pub fn is_absolute(path: &str) -> (yes: bool)
    ensures
        yes == absolute(path@),
{
    let chars = chars_of(path);
    chars.len() > 0 && chars[0] == '/'
}

fn part(segment: Vec<char>, first_of_relative: bool) -> (p: Option<PathPart>)
    ensures
        match p {
            None => part_of(segment@, first_of_relative) is None,
            Some(p) => part_of(segment@, first_of_relative) == Some(p@),
        },
{
    if segment.len() == 0 {
        return None;
    }
    if segment.len() == 1 && segment[0] == '.' {
        assert(segment@ =~= seq!['.']);
        return if first_of_relative {
            Some(PathPart::Current)
        } else {
            None
        };
    }
    if segment.len() == 2 && segment[0] == '.' && segment[1] == '.' {
        assert(segment@ =~= seq!['.', '.']);
        return Some(PathPart::Parent);
    }
    Some(PathPart::Name(string_of(segment.as_slice())))
}

/// The parts of a path.
pub fn components(path: &str) -> (parts: Vec<PathPart>)
    ensures
        parts_view(parts@) == path_parts(path@),
{
    let chars = chars_of(path);
    let mut parts: Vec<PathPart> = Vec::new();
    if is_absolute(path) {
        parts.push(PathPart::Root);
    }
    let ghost head = parts_view(parts@);
    proof {
        assert(head + parts_from(chars@, 0) =~= path_parts(path@)) by {
            if absolute(path@) {
                assert(head =~= seq![Part::Root]);
            } else {
                assert(head =~= Seq::empty());
            }
        }
    }
    let mut i: usize = 0;
    loop
        invariant
            i <= chars@.len(),
            chars@ == path@,
            parts_view(parts@) + parts_from(chars@, i as int) == path_parts(path@),
        ensures
            parts_view(parts@) == path_parts(path@),
        decreases chars@.len() - i,
    {
        let a: usize = i;
        proof {
            lemma_slash_from(chars@, a as int);
        }
        while i < chars.len() && chars[i] != '/'
            invariant
                a <= i <= chars@.len(),
                slash_from(chars@, a as int) == slash_from(chars@, i as int),
            decreases chars@.len() - i,
        {
            i += 1;
        }
        let ghost before = parts@;
        let ghost segment = chars@.subrange(a as int, i as int);
        let ghost here = part_list(part_of(segment, a == 0));
        if let Some(p) = part(sub_chars(&chars, a, i), a == 0) {
            parts.push(p);
            assert(parts_view(parts@) =~= parts_view(before) + here);
        } else {
            assert(parts_view(parts@) =~= parts_view(before) + here);
        }
        if i >= chars.len() {
            break;
        }
        i += 1;
        proof {
            assert(parts_view(before) + (here + parts_from(chars@, i as int)) =~= parts_view(before)
                + here + parts_from(chars@, i as int));
        }
    }
    parts
}

/// Whether two parts are the same.
pub fn same_part(a: &PathPart, b: &PathPart) -> (same: bool)
    ensures
        same == (a@ == b@),
{
    match (a, b) {
        (PathPart::Root, PathPart::Root) => true,
        (PathPart::Current, PathPart::Current) => true,
        (PathPart::Parent, PathPart::Parent) => true,
        (PathPart::Name(x), PathPart::Name(y)) => *x == *y,
        _ => false,
    }
}

/// Whether two paths have the same parts.
pub open spec fn path_equal(a: Seq<char>, b: Seq<char>) -> bool {
    path_parts(a) == path_parts(b)
}

/// Whether the parts of a path start with those of another.
pub open spec fn path_below(path: Seq<char>, root: Seq<char>) -> bool {
    path_parts(root).len() <= path_parts(path).len() && path_parts(path).take(
        path_parts(root).len() as int,
    ) == path_parts(root)
}

fn begins_with_parts(parts: &Vec<PathPart>, root: &Vec<PathPart>) -> (yes: bool)
    ensures
        yes == (root@.len() <= parts@.len() && parts_view(parts@).take(root@.len() as int)
            == parts_view(root@)),
{
    if root.len() > parts.len() {
        return false;
    }
    let ghost t = parts_view(parts@).take(root@.len() as int);
    for i in 0..root.len()
        invariant
            root@.len() <= parts@.len(),
            t == parts_view(parts@).take(root@.len() as int),
            forall|j: int| 0 <= j < i ==> parts@[j]@ == root@[j]@,
    {
        if !same_part(&parts[i], &root[i]) {
            assert(t[i as int] != parts_view(root@)[i as int]);
            return false;
        }
    }
    assert(t =~= parts_view(root@));
    true
}

/// Whether two paths have the same parts.
pub fn same_path(a: &str, b: &str) -> (same: bool)
    ensures
        same == path_equal(a@, b@),
{
    let x = components(a);
    let y = components(b);
    let same = x.len() == y.len() && begins_with_parts(&x, &y);
    proof {
        assert(path_parts(a@).len() == x@.len() && path_parts(b@).len() == y@.len());
        if x@.len() == y@.len() {
            assert(parts_view(x@).take(y@.len() as int) =~= parts_view(x@));
        }
    }
    same
}

/// Whether a path lies at or below another.
pub fn is_below(path: &str, root: &str) -> (yes: bool)
    ensures
        yes == path_below(path@, root@),
{
    let x = components(path);
    let y = components(root);
    proof {
        assert(path_parts(path@).len() == x@.len() && path_parts(root@).len() == y@.len());
    }
    begins_with_parts(&x, &y)
}

/// Whether all parts are names.
pub open spec fn only_names(parts: Seq<Part>) -> bool {
    forall|i: int| 0 <= i < parts.len() ==> #[trigger] parts[i] is Name
}

fn all_names(parts: &Vec<PathPart>) -> (yes: bool)
    ensures
        yes == only_names(parts_view(parts@)),
{
    for i in 0..parts.len()
        invariant
            forall|j: int| 0 <= j < i ==> parts@[j]@ is Name,
    {
        match &parts[i] {
            PathPart::Name(_) => {},
            _ => {
                assert(!(parts_view(parts@)[i as int] is Name));
                return false;
            },
        }
    }
    assert forall|j: int| 0 <= j < parts_view(parts@).len() implies #[trigger] parts_view(
        parts@,
    )[j] is Name by {
        assert(parts@[j]@ is Name);
    }
    true
}

/// Whether a path stays below the place where it starts: it is relative, and all
/// its parts are names.
pub fn is_plain_relative(path: &str) -> (yes: bool)
    ensures
        yes == only_names(path_parts(path@)),
{
    all_names(&components(path))
}

/// Names with slashes between them.
pub open spec fn joined_names(parts: Seq<Part>) -> Seq<char>
    decreases parts.len(),
{
    if parts.len() == 0 {
        Seq::empty()
    } else if parts.len() == 1 {
        parts[0]->Name_0
    } else {
        joined_names(parts.drop_last()) + "/"@ + parts.last()->Name_0
    }
}

/// The names of a list of parts with slashes between them.
fn join_names(parts: &Vec<PathPart>, from: usize) -> (out: String)
    requires
        from <= parts@.len(),
        only_names(parts_view(parts@).skip(from as int)),
    ensures
        out@ == joined_names(parts_view(parts@).skip(from as int)),
{
    let ghost tail = parts_view(parts@).skip(from as int);
    let mut out = String::new();
    let mut i: usize = from;
    while i < parts.len()
        invariant
            from <= i <= parts@.len(),
            tail == parts_view(parts@).skip(from as int),
            only_names(tail),
            out@ == joined_names(tail.take(i - from)),
        decreases parts@.len() - i,
    {
        assert(tail[i - from] == parts@[i as int]@);
        assert(tail.take(i - from + 1).drop_last() =~= tail.take(i - from));
        if let PathPart::Name(name) = &parts[i] {
            if i > from {
                out.push_str("/");
            }
            out.push_str(name.as_str());
            assert(i == from ==> out@ =~= name@);
        }
        i += 1;
    }
    assert(tail.take(tail.len() as int) =~= tail);
    out
}

/// What is left of a path below another one: names only, and at least one.
pub open spec fn relative_below(path: Seq<char>, root: Seq<char>) -> Option<Seq<char>> {
    let rest = path_parts(path).skip(path_parts(root).len() as int);
    if path_below(path, root) && rest.len() > 0 && only_names(rest) {
        Some(joined_names(rest))
    } else {
        None
    }
}

/// What is left of a path below another one.
pub fn strip_root(path: &str, root: &str) -> (rest: Option<String>)
    ensures
        match rest {
            Some(r) => relative_below(path@, root@) == Some(r@),
            None => relative_below(path@, root@) is None,
        },
{
    let x = components(path);
    let y = components(root);
    proof {
        assert(path_parts(path@).len() == x@.len() && path_parts(root@).len() == y@.len());
    }
    if !begins_with_parts(&x, &y) {
        return None;
    }
    if x.len() == y.len() {
        return None;
    }
    let from: usize = y.len();
    let mut i: usize = from;
    let ghost rest = parts_view(x@).skip(from as int);
    while i < x.len()
        invariant
            from <= i <= x@.len(),
            rest == parts_view(x@).skip(from as int),
            from == y@.len(),
            parts_view(x@) == path_parts(path@),
            parts_view(y@) == path_parts(root@),
            forall|j: int| from <= j < i ==> x@[j]@ is Name,
        decreases x@.len() - i,
    {
        match &x[i] {
            PathPart::Name(_) => {},
            _ => {
                assert(!(rest[i - from] is Name));
                return None;
            },
        }
        i += 1;
    }
    assert forall|j: int| 0 <= j < rest.len() implies #[trigger] rest[j] is Name by {
        assert(x@[j + from]@ is Name);
    }
    Some(join_names(&x, from))
}

/// One path put after another; an absolute one stays as it is.
pub open spec fn joined(base: Seq<char>, path: Seq<char>) -> Seq<char> {
    if absolute(path) || base.len() == 0 {
        path
    } else if base.last() == '/' {
        base + path
    } else {
        base + "/"@ + path
    }
}

/// One path put after another.
pub fn join(base: &str, path: &str) -> (out: String)
    ensures
        out@ == joined(base@, path@),
{
    let chars = chars_of(base);
    if is_absolute(path) || chars.len() == 0 {
        return path.to_owned();
    }
    if chars[chars.len() - 1] == '/' {
        join2(base, path)
    } else {
        join3(base, "/", path)
    }
}

/// The last part of a path, if it is a name.
pub open spec fn last_name(path: Seq<char>) -> Option<Seq<char>> {
    let parts = path_parts(path);
    if parts.len() > 0 && parts.last() is Name {
        Some(parts.last()->Name_0)
    } else {
        None
    }
}

/// The last part of a path, if it is a name.
pub fn file_name(path: &str) -> (name: Option<String>)
    ensures
        match name {
            Some(n) => last_name(path@) == Some(n@),
            None => last_name(path@) is None,
        },
{
    let mut parts = components(path);
    let ghost v = parts_view(parts@);
    match parts.pop() {
        Some(p) => {
            assert(v.last() == p@);
            match p {
                PathPart::Name(name) => Some(name),
                _ => None,
            }
        },
        None => None,
    }
}

/// The last dot of a name at or before index `i`, or minus one.
pub open spec fn last_dot(name: Seq<char>, i: int) -> int
    decreases i + 1,
{
    if i < 0 {
        -1
    } else if name[i] == '.' {
        i
    } else {
        last_dot(name, i - 1)
    }
}

pub proof fn lemma_last_dot(name: Seq<char>, i: int)
    requires
        -1 <= i < name.len(),
    ensures
        -1 <= last_dot(name, i) <= i,
    decreases i + 1,
{
    if i >= 0 && name[i] != '.' {
        lemma_last_dot(name, i - 1);
    }
}

/// What follows the last dot of a name, unless the name starts with that dot.
pub open spec fn extension_of(name: Seq<char>) -> Option<Seq<char>> {
    let d = last_dot(name, name.len() - 1);
    if d > 0 {
        Some(name.skip(d + 1))
    } else {
        None
    }
}

/// The extension of the file that a path names.
pub open spec fn path_extension(path: Seq<char>) -> Option<Seq<char>> {
    match last_name(path) {
        Some(name) => extension_of(name),
        None => None,
    }
}

/// The extension of the file that a path names.
pub fn extension(path: &str) -> (ext: Option<String>)
    ensures
        match ext {
            Some(e) => path_extension(path@) == Some(e@),
            None => path_extension(path@) is None,
        },
{
    let name = match file_name(path) {
        Some(name) => name,
        None => return None,
    };
    let chars = chars_of(name.as_str());
    let mut i: usize = chars.len();
    proof {
        lemma_last_dot(chars@, chars@.len() - 1);
    }
    while i > 0 && chars[i - 1] != '.'
        invariant
            i <= chars@.len(),
            last_dot(chars@, chars@.len() - 1) == last_dot(chars@, i - 1),
        decreases i,
    {
        i -= 1;
    }
    if i <= 1 {
        return None;
    }
    let n: usize = chars.len();
    let ext = string_of(sub_chars(&chars, i, n).as_slice());
    assert(ext@ =~= chars@.skip(i as int));
    Some(ext)
}

/// Whether a text is the name of one file or directory.
pub open spec fn is_name(text: Seq<char>) -> bool {
    text.len() > 0 && !text.contains('/') && text != seq!['.'] && text != seq!['.', '.']
}

proof fn lemma_no_slash(path: Seq<char>, i: int)
    requires
        0 <= i <= path.len(),
        forall|k: int| i <= k < path.len() ==> path[k] != '/',
    ensures
        slash_from(path, i) == path.len(),
    decreases path.len() - i,
{
    if i < path.len() {
        lemma_no_slash(path, i + 1);
    }
}

/// A name alone is a path of that one part.
pub proof fn names_are_their_own_part(name: Seq<char>)
    requires
        is_name(name),
    ensures
        path_parts(name) == seq![Part::Name(name)],
        last_name(name) == Some(name),
        only_names(path_parts(name)),
        !absolute(name),
{
    assert forall|k: int| 0 <= k < name.len() implies name[k] != '/' by {
        if name[k] == '/' {
            assert(name.contains('/'));
        }
    }
    lemma_no_slash(name, 0);
    assert(name.subrange(0, name.len() as int) =~= name);
    assert(path_parts(name) =~= seq![Part::Name(name)]);
}

proof fn lemma_slash_shifted(all: Seq<char>, path: Seq<char>, n: int, k: int)
    requires
        0 <= n,
        0 <= k <= path.len(),
        all.len() == n + path.len(),
        forall|x: int| 0 <= x < path.len() ==> #[trigger] path[x] == all[n + x],
    ensures
        slash_from(all, n + k) == n + slash_from(path, k),
    decreases path.len() - k,
{
    if k < path.len() {
        assert(path[k] == all[n + k]);
        if path[k] != '/' {
            lemma_slash_shifted(all, path, n, k + 1);
        }
    }
}

/// The parts of the end of a path are those of what stands there.
proof fn lemma_parts_of_end(all: Seq<char>, path: Seq<char>, n: int, k: int)
    requires
        0 < n,
        0 <= k <= path.len(),
        all.len() == n + path.len(),
        forall|x: int| 0 <= x < path.len() ==> #[trigger] path[x] == all[n + x],
        k == 0 ==> path.subrange(0, slash_from(path, 0)) != seq!['.'],
    ensures
        parts_from(all, n + k) == parts_from(path, k),
    decreases path.len() - k,
{
    lemma_slash_shifted(all, path, n, k);
    lemma_slash_from(path, k);
    let j = slash_from(path, k);
    assert(all.subrange(n + k, n + j) =~= path.subrange(k, j));
    if j < path.len() {
        lemma_parts_of_end(all, path, n, j + 1);
    }
}

proof fn lemma_slash_in_head(all: Seq<char>, base: Seq<char>, i: int)
    requires
        0 <= i <= base.len() <= all.len(),
        all.len() > base.len() ==> all[base.len() as int] == '/' || base.last() == '/',
        forall|x: int| 0 <= x < base.len() ==> #[trigger] base[x] == all[x],
        i < base.len() || all.len() == base.len() || all[base.len() as int] == '/',
    ensures
        slash_from(all, i) == slash_from(base, i),
    decreases base.len() - i,
{
    if i < base.len() {
        assert(base[i] == all[i]);
        if base[i] != '/' {
            if i + 1 == base.len() {
                assert(base.last() == base[i]);
            }
            lemma_slash_in_head(all, base, i + 1);
        }
    }
}

/// The parts of a path with another one behind a slash are the parts of both.
proof fn lemma_parts_of_both(all: Seq<char>, base: Seq<char>, n: int, i: int)
    requires
        0 < base.len(),
        0 <= i <= base.len(),
        all.len() >= n,
        base.last() == '/' ==> n == base.len(),
        base.last() != '/' ==> n == base.len() + 1 && all[base.len() as int] == '/',
        forall|x: int| 0 <= x < base.len() ==> #[trigger] base[x] == all[x],
    ensures
        parts_from(all, i) == parts_from(base, i) + parts_from(all, n),
    decreases base.len() - i,
{
    lemma_slash_from(base, i);
    lemma_slash_from(all, i);
    let j = slash_from(base, i);
    if base.last() == '/' && i == base.len() {
        assert(base.subrange(i, i) =~= Seq::empty());
        assert(parts_from(base, i) =~= Seq::empty());
        assert(parts_from(base, i) + parts_from(all, n) =~= parts_from(all, n));
    } else {
        lemma_slash_in_head(all, base, i);
        assert(all.subrange(i, j) =~= base.subrange(i, j));
        let here = part_list(part_of(base.subrange(i, j), i == 0));
        if j < base.len() {
            lemma_parts_of_both(all, base, n, j + 1);
            assert(here + (parts_from(base, j + 1) + parts_from(all, n)) =~= (here + parts_from(
                base,
                j + 1,
            )) + parts_from(all, n));
        } else {
            assert(base.last() != '/') by {
                if base.last() == '/' {
                    assert(base[base.len() - 1] == '/');
                    assert(i <= base.len() - 1 < j);
                }
            }
        }
    }
}

/// A path that is joined to another lies below it: its parts are the parts of the one
/// and then those of the other, and what is left below the first is the second.
pub proof fn joined_paths_lie_below(base: Seq<char>, path: Seq<char>)
    requires
        base.len() > 0,
        only_names(path_parts(path)),
    ensures
        path_parts(joined(base, path)) == path_parts(base) + path_parts(path),
        path_below(joined(base, path), base),
        path_parts(path).len() > 0 ==> relative_below(joined(base, path), base) == Some(
            joined_names(path_parts(path)),
        ),
        last_name(path) is Some ==> last_name(joined(base, path)) == last_name(path),
{
    reveal_strlit("/");
    let all = joined(base, path);
    let n: int = if base.last() == '/' {
        base.len() as int
    } else {
        (base.len() + 1) as int
    };
    assert(!absolute(path)) by {
        if absolute(path) {
            assert(path_parts(path)[0] == Part::Root);
        }
    }
    assert(all.len() == n + path.len());
    assert forall|x: int| 0 <= x < path.len() implies #[trigger] path[x] == all[n + x] by {}
    assert forall|x: int| 0 <= x < base.len() implies #[trigger] base[x] == all[x] by {}
    lemma_slash_from(path, 0);
    let first = path.subrange(0, slash_from(path, 0));
    assert(first != seq!['.']) by {
        if first == seq!['.'] {
            assert(path_parts(path)[0] == Part::Current);
        }
    }
    lemma_parts_of_end(all, path, n, 0);
    lemma_parts_of_both(all, base, n, 0);
    assert(path_parts(all) =~= path_parts(base) + path_parts(path));
    let m = path_parts(base).len() as int;
    assert(path_parts(all).take(m) =~= path_parts(base));
    assert(path_parts(all).skip(m) =~= path_parts(path));
}

/// A file below a directory is named by what is left of its path, and a path that
/// climbs or starts at the root is below none but by its parts: what is left below
/// another path is never empty and never leaves it.
pub proof fn what_is_left_stays_below(path: Seq<char>, root: Seq<char>, rest: Seq<char>)
    requires
        relative_below(path, root) == Some(rest),
    ensures
        path_parts(path).len() > path_parts(root).len(),
        forall|i: int|
            0 <= i < path_parts(root).len() ==> #[trigger] path_parts(path)[i] == path_parts(
                root,
            )[i],
        forall|i: int|
            path_parts(root).len() <= i < path_parts(path).len() ==> #[trigger] path_parts(path)[i] is Name,
{
    let m = path_parts(root).len() as int;
    assert forall|i: int| 0 <= i < m implies #[trigger] path_parts(path)[i] == path_parts(
        root,
    )[i] by {
        assert(path_parts(path).take(m)[i] == path_parts(path)[i]);
    }
    assert forall|i: int| m <= i < path_parts(path).len() implies #[trigger] path_parts(path)[i] is Name by {
        assert(path_parts(path).skip(m)[i - m] == path_parts(path)[i]);
    }
}

/// The extension of a name is what follows its last dot, for a name that does not start
/// with that dot.
pub proof fn extensions_follow_the_last_dot(stem: Seq<char>, ext: Seq<char>)
    requires
        stem.len() > 0,
        !ext.contains('.'),
    ensures
        extension_of(stem + seq!['.'] + ext) == Some(ext),
        !stem.contains('.') ==> extension_of(stem) is None,
        extension_of(seq!['.'] + ext) is None,
{
    let name = stem + seq!['.'] + ext;
    assert forall|k: int| stem.len() < k < name.len() implies name[k] != '.' by {
        if name[k] == '.' {
            assert(ext[k - stem.len() - 1] == '.');
            assert(ext.contains('.'));
        }
    }
    assert(name[stem.len() as int] == '.');
    lemma_last_dot_is(name, name.len() - 1, stem.len() as int);
    assert(name.skip((stem.len() + 1) as int) =~= ext);
    if !stem.contains('.') {
        assert forall|k: int| 0 <= k < stem.len() implies stem[k] != '.' by {
            if stem[k] == '.' {
                assert(stem.contains('.'));
            }
        }
        lemma_no_dot(stem, stem.len() - 1);
    }
    let hidden = seq!['.'] + ext;
    assert forall|k: int| 0 < k < hidden.len() implies hidden[k] != '.' by {
        if hidden[k] == '.' {
            assert(ext[k - 1] == '.');
            assert(ext.contains('.'));
        }
    }
    lemma_last_dot_is(hidden, hidden.len() - 1, 0);
}

proof fn lemma_last_dot_is(name: Seq<char>, i: int, d: int)
    requires
        0 <= d <= i < name.len(),
        name[d] == '.',
        forall|k: int| d < k <= i ==> name[k] != '.',
    ensures
        last_dot(name, i) == d,
    decreases i,
{
    if i > d {
        lemma_last_dot_is(name, i - 1, d);
    }
}

proof fn lemma_no_dot(name: Seq<char>, i: int)
    requires
        i < name.len(),
        forall|k: int| 0 <= k <= i ==> name[k] != '.',
    ensures
        last_dot(name, i) == -1,
    decreases i + 1,
{
    if i >= 0 {
        lemma_no_dot(name, i - 1);
    }
}

/// A path that climbs, wherever in it, or that starts at the root is not made of names
/// alone, so that it stands for nothing below another path.
pub proof fn climbing_paths_are_not_names(before: Seq<char>, behind: Seq<char>, path: Seq<char>)
    requires
        before.len() > 0,
        before.last() == '/',
    ensures
        absolute(path) ==> !only_names(path_parts(path)),
        !only_names(path_parts(seq!['.', '.'])),
        !only_names(path_parts(seq!['.', '.', '/'] + behind)),
        !only_names(path_parts(before + seq!['.', '.', '/'] + behind)),
        !only_names(path_parts(before + seq!['.', '.'])),
{
    if absolute(path) {
        assert(path_parts(path)[0] == Part::Root);
    }
    let up = seq!['.', '.'];
    lemma_no_slash(up, 0);
    assert(up.subrange(0, 2) =~= up);
    assert(path_parts(up)[0] == Part::Parent);
    let led = seq!['.', '.', '/'] + behind;
    assert(slash_from(led, 2) == 2);
    assert(slash_from(led, 1) == 2);
    assert(slash_from(led, 0) == 2);
    assert(led.subrange(0, 2) =~= up);
    assert(path_parts(led)[0] == Part::Parent);
    lemma_climb_behind(before, seq!['.', '.', '/'] + behind);
    assert(before + (seq!['.', '.', '/'] + behind) =~= before + seq!['.', '.', '/'] + behind);
    lemma_climb_behind(before, up);
}

/// A path behind a slash that starts with two dots climbs.
proof fn lemma_climb_behind(before: Seq<char>, tail: Seq<char>)
    requires
        before.len() > 0,
        before.last() == '/',
        tail.len() >= 2,
        tail[0] == '.' && tail[1] == '.',
        tail.len() == 2 || tail[2] == '/',
    ensures
        !only_names(path_parts(before + tail)),
{
    let all = before + tail;
    let n = before.len() as int;
    assert forall|x: int| 0 <= x < before.len() implies #[trigger] before[x] == all[x] by {}
    lemma_parts_of_both(all, before, n, 0);
    assert(slash_from(all, n + 2) == n + 2);
    assert(all[n + 1] == '.' && all[n] == '.');
    assert(slash_from(all, n + 1) == n + 2);
    assert(slash_from(all, n) == n + 2);
    assert(all.subrange(n, n + 2) =~= seq!['.', '.']);
    let rest = parts_from(all, n);
    assert(rest[0] == Part::Parent);
    let k = parts_from(before, 0).len() as int;
    assert(parts_from(all, 0)[k] == Part::Parent);
    if absolute(all) {
        assert(path_parts(all)[0] == Part::Root);
    } else {
        assert(path_parts(all)[k] == Part::Parent);
    }
}

} // verus!
