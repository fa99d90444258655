//! Paths as text, with `/` between components.
//!
//! A path may start with a root `/` or with a `.` that stands for the
//! current directory; what follows is its body. Empty components and `.`
//! components at the end of the body do not count.

use vstd::prelude::*;

verus! {

/// The length of what stands before the body of a path: a root `/`, or a
/// leading `.` of its own.
pub open spec fn fixed_prefix(p: Seq<char>) -> nat {
    if p.len() > 0 && p[0] == '/' {
        1
    } else if p.len() > 0 && p[0] == '.' && (p.len() == 1 || p[1] == '/') {
        1
    } else {
        0
    }
}

/// Whether `p`, longer than `lo`, ends in a separator or in a `.`
/// component.
pub open spec fn ends_idle(p: Seq<char>, lo: nat) -> bool {
    p.len() > lo && (p.last() == '/' || (p.last() == '.' && (p.len() - 1 == lo || p[p.len() - 2]
        == '/')))
}

/// `p` without the separators and `.` components at its end, cut no
/// shorter than `lo`.
pub open spec fn strip_trailing(p: Seq<char>, lo: nat) -> Seq<char>
    decreases p.len(),
{
    if ends_idle(p, lo) {
        strip_trailing(p.drop_last(), lo)
    } else {
        p
    }
}

/// `p` without the characters of its last component, cut no shorter than
/// `lo`.
pub open spec fn drop_component(p: Seq<char>, lo: nat) -> Seq<char>
    decreases p.len(),
{
    if p.len() > lo && p.last() != '/' {
        drop_component(p.drop_last(), lo)
    } else {
        p
    }
}

/// The directory that holds the last component of a path; empty where the
/// path has no such component or no directory before it.
pub open spec fn parent_dir(path: Seq<char>) -> Seq<char> {
    let lo = fixed_prefix(path);
    let stripped = strip_trailing(path, lo);
    if stripped.len() > lo {
        strip_trailing(drop_component(stripped, lo), lo)
    } else {
        Seq::empty()
    }
}

/// `name` placed in `dir`. A name that starts at the root stands alone.
pub open spec fn joined_path(dir: Seq<char>, name: Seq<char>) -> Seq<char> {
    if name.len() > 0 && name[0] == '/' {
        name
    } else if dir.len() > 0 && dir.last() != '/' {
        dir.push('/') + name
    } else {
        dir + name
    }
}

/// Whether a file name has an extension: a dot that is not its first
/// character.
pub open spec fn has_inner_dot(name: Seq<char>) -> bool {
    exists|i: int| 1 <= i < name.len() && name[i] == '.'
}

/// The path up to the end of its file name.
pub open spec fn up_to_file_name(full: Seq<char>) -> Seq<char> {
    strip_trailing(full, fixed_prefix(full))
}

/// The file name of a path: its last component that is neither empty nor
/// `.`. Empty where there is none.
pub open spec fn file_name(full: Seq<char>) -> Seq<char> {
    let stem = up_to_file_name(full);
    stem.skip(drop_component(stem, fixed_prefix(full)).len() as int)
}

/// Whether a path names a file that could take an extension and has none.
pub open spec fn lacks_extension(full: Seq<char>) -> bool {
    &&& up_to_file_name(full).len() > fixed_prefix(full)
    &&& file_name(full) != seq!['.', '.']
    &&& !has_inner_dot(file_name(full))
}

/// `full` with the extension `ext` added to its file name, where that name
/// has none; unchanged where it has one or where there is no file name.
pub open spec fn with_default_extension(full: Seq<char>, ext: Seq<char>) -> Seq<char> {
    if !lacks_extension(full) {
        full
    } else if ext.len() == 0 {
        up_to_file_name(full)
    } else {
        up_to_file_name(full).push('.') + ext
    }
}

/// Stripping and dropping only ever cut from the end.
pub proof fn lemma_strip_trailing_prefix(p: Seq<char>, lo: nat)
    requires
        lo <= p.len(),
    ensures
        lo <= strip_trailing(p, lo).len() <= p.len(),
        strip_trailing(p, lo) == p.take(strip_trailing(p, lo).len() as int),
        !ends_idle(strip_trailing(p, lo), lo),
    decreases p.len(),
{
    if ends_idle(p, lo) {
        lemma_strip_trailing_prefix(p.drop_last(), lo);
        let n = strip_trailing(p, lo).len() as int;
        assert(p.drop_last().take(n) =~= p.take(n));
    } else {
        assert(p.take(p.len() as int) =~= p);
    }
}

/// Dropping the last component cuts from the end, and what is cut holds no
/// separator.
pub proof fn lemma_drop_component_prefix(p: Seq<char>, lo: nat)
    requires
        lo <= p.len(),
    ensures
        lo <= drop_component(p, lo).len() <= p.len(),
        drop_component(p, lo) == p.take(drop_component(p, lo).len() as int),
        forall|i: int| drop_component(p, lo).len() <= i < p.len() ==> p[i] != '/',
    decreases p.len(),
{
    if p.len() > lo && p.last() != '/' {
        lemma_drop_component_prefix(p.drop_last(), lo);
        let n = drop_component(p, lo).len() as int;
        assert(p.drop_last().take(n) =~= p.take(n));
        assert forall|i: int| n <= i < p.len() implies p[i] != '/' by {
            if i < p.len() - 1 {
                assert(p.drop_last()[i] == p[i]);
            }
        }
    } else {
        assert(p.take(p.len() as int) =~= p);
    }
}

/// The directory part of a path is a part of the path: it stands at its
/// start.
pub proof fn lemma_parent_dir_is_prefix(path: Seq<char>)
    ensures
        parent_dir(path).len() <= path.len(),
        parent_dir(path) == path.take(parent_dir(path).len() as int),
{
    let lo = fixed_prefix(path);
    lemma_strip_trailing_prefix(path, lo);
    let stripped = strip_trailing(path, lo);
    if stripped.len() > lo {
        lemma_drop_component_prefix(stripped, lo);
        let cut = drop_component(stripped, lo);
        lemma_strip_trailing_prefix(cut, lo);
        let n = parent_dir(path).len() as int;
        assert(cut.take(n) =~= stripped.take(n));
        assert(stripped.take(n) =~= path.take(n));
    } else {
        assert(path.take(0) =~= Seq::<char>::empty());
    }
}

/// Measures what stands before the body of a path.
pub fn fixed_prefix_len(p: &[char]) -> (lo: usize)
    ensures
        lo == fixed_prefix(p@),
        lo <= p.len(),
{
    if p.len() > 0 && p[0] == '/' {
        1
    } else if p.len() > 0 && p[0] == '.' && (p.len() == 1 || p[1] == '/') {
        1
    } else {
        0
    }
}

/// The length to which the first `len` characters of `p` are stripped.
pub fn strip_trailing_len(p: &[char], len: usize, lo: usize) -> (n: usize)
    requires
        lo <= len <= p.len(),
    ensures
        lo <= n <= len,
        p@.take(n as int) == strip_trailing(p@.take(len as int), lo as nat),
{
    let mut n: usize = len;
    while n > lo && (p[n - 1] == '/' || (p[n - 1] == '.' && (n - 1 == lo || p[n - 2] == '/')))
        invariant
            lo <= n <= len <= p.len(),
            strip_trailing(p@.take(n as int), lo as nat) == strip_trailing(
                p@.take(len as int),
                lo as nat,
            ),
        decreases n,
    {
        assert(p@.take(n as int).drop_last() =~= p@.take(n - 1));
        assert(ends_idle(p@.take(n as int), lo as nat));
        n = n - 1;
    }
    assert(!ends_idle(p@.take(n as int), lo as nat));
    n
}

/// The length to which the first `len` characters of `p` are cut when
/// their last component is dropped.
pub fn drop_component_len(p: &[char], len: usize, lo: usize) -> (n: usize)
    requires
        lo <= len <= p.len(),
    ensures
        lo <= n <= len,
        p@.take(n as int) == drop_component(p@.take(len as int), lo as nat),
{
    let mut n: usize = len;
    while n > lo && p[n - 1] != '/'
        invariant
            lo <= n <= len <= p.len(),
            drop_component(p@.take(n as int), lo as nat) == drop_component(
                p@.take(len as int),
                lo as nat,
            ),
        decreases n,
    {
        assert(p@.take(n as int).drop_last() =~= p@.take(n - 1));
        n = n - 1;
    }
    n
}

/// The length of the directory part of `p`.
pub fn parent_dir_len(p: &[char]) -> (n: usize)
    ensures
        n <= p.len(),
        p@.take(n as int) == parent_dir(p@),
{
    let lo = fixed_prefix_len(p);
    assert(p@.take(p@.len() as int) =~= p@);
    let stripped = strip_trailing_len(p, p.len(), lo);
    if stripped > lo {
        let cut = drop_component_len(p, stripped, lo);
        strip_trailing_len(p, cut, lo)
    } else {
        assert(p@.take(0) =~= Seq::<char>::empty());
        0
    }
}

/// `name` placed in `dir`.
pub fn join_path(dir: &[char], name: &[char]) -> (full: Vec<char>)
    ensures
        full@ == joined_path(dir@, name@),
{
    let mut full: Vec<char> = Vec::new();
    if !(name.len() > 0 && name[0] == '/') {
        let mut i: usize = 0;
        while i < dir.len()
            invariant
                i <= dir.len(),
                full@ == dir@.take(i as int),
            decreases dir.len() - i,
        {
            full.push(dir[i]);
            assert(dir@.take(i + 1) =~= dir@.take(i as int).push(dir@[i as int]));
            i = i + 1;
        }
        assert(dir@.take(dir@.len() as int) =~= dir@);
        if dir.len() > 0 && dir[dir.len() - 1] != '/' {
            full.push('/');
        }
    }
    let ghost head = full@;
    let mut j: usize = 0;
    while j < name.len()
        invariant
            j <= name.len(),
            full@ == head + name@.take(j as int),
        decreases name.len() - j,
    {
        full.push(name[j]);
        assert(name@.take(j + 1) =~= name@.take(j as int).push(name@[j as int]));
        assert(full@ =~= head + name@.take(j + 1));
        j = j + 1;
    }
    assert(name@.take(name@.len() as int) =~= name@);
    assert(full@ =~= joined_path(dir@, name@));
    full
}

/// Whether `p[from..to]` has a dot after its first character.
fn inner_dot_in(p: &[char], from: usize, to: usize) -> (found: bool)
    requires
        from <= to <= p.len(),
    ensures
        found == has_inner_dot(p@.subrange(from as int, to as int)),
{
    let ghost name = p@.subrange(from as int, to as int);
    if to - from < 2 {
        return false;
    }
    let mut i: usize = from + 1;
    while i < to
        invariant
            from + 1 <= i <= to <= p.len(),
            name == p@.subrange(from as int, to as int),
            forall|k: int| 1 <= k < i - from ==> name[k] != '.',
        decreases to - i,
    {
        if p[i] == '.' {
            assert(name[i - from] == '.');
            return true;
        }
        i = i + 1;
    }
    false
}

/// Cuts `full` to the end of its file name and adds the extension, where
/// the file name has none.
pub fn add_default_extension(full: &mut Vec<char>, ext: &[char])
    ensures
        final(full)@ == with_default_extension(old(full)@, ext@),
{
    let p = full.as_slice();
    let lo = fixed_prefix_len(p);
    assert(p@.take(p@.len() as int) =~= p@);
    let stem = strip_trailing_len(p, p.len(), lo);
    if stem <= lo {
        return ;
    }
    let start = drop_component_len(p, stem, lo);
    proof {
        let s = p@.take(stem as int);
        assert(s == up_to_file_name(p@));
        assert(s.skip(start as int) =~= p@.subrange(start as int, stem as int));
        assert(file_name(p@) == p@.subrange(start as int, stem as int));
    }
    let is_parent = stem - start == 2 && p[start] == '.' && p[start + 1] == '.';
    proof {
        let name = p@.subrange(start as int, stem as int);
        if is_parent {
            assert(name =~= seq!['.', '.']);
        } else if name == seq!['.', '.'] {
            assert(name.len() == 2);
            assert(name[0] == '.' && name[1] == '.');
        }
    }
    if is_parent || inner_dot_in(p, start, stem) {
        return ;
    }
    full.truncate(stem);
    assert(full@ =~= up_to_file_name(old(full)@));
    if ext.len() > 0 {
        full.push('.');
        let ghost head = full@;
        let mut i: usize = 0;
        while i < ext.len()
            invariant
                i <= ext.len(),
                full@ == head + ext@.take(i as int),
            decreases ext.len() - i,
        {
            full.push(ext[i]);
            assert(ext@.take(i + 1) =~= ext@.take(i as int).push(ext@[i as int]));
            assert(full@ =~= head + ext@.take(i + 1));
            i = i + 1;
        }
        assert(ext@.take(ext@.len() as int) =~= ext@);
    }
}

} // verus!
