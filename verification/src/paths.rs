//! Paths, written out in full: how they are ordered, and how a file is named
//! from the folder it is in.

use vstd::prelude::*;

use crate::text::{chars_of, string_of};

verus! {

/// Whether path `a` comes before path `b`: name by name, and each name character
/// by character. What parts the names comes before everything in a name, so that
/// what is in a folder is together.
pub open spec fn path_before(a: Seq<char>, b: Seq<char>) -> bool
    decreases a.len(),
{
    if b.len() == 0 {
        false
    } else if a.len() == 0 {
        true
    } else if a[0] == b[0] {
        path_before(a.skip(1), b.skip(1))
    } else {
        b[0] != '/' && (a[0] == '/' || a[0] < b[0])
    }
}

/// Whether path `a` comes before path `b`.
pub(crate) fn comes_before(a: &Vec<char>, b: &Vec<char>) -> (before: bool)
    ensures
        before == path_before(a@, b@),
{
    let mut i: usize = 0;
    assert(a@.skip(0) =~= a@);
    assert(b@.skip(0) =~= b@);
    while i < a.len() && i < b.len() && a[i] == b[i]
        invariant
            i <= a@.len(),
            i <= b@.len(),
            path_before(a@, b@) == path_before(a@.skip(i as int), b@.skip(i as int)),
        decreases a@.len() - i,
    {
        assert(a@.skip(i as int).skip(1) =~= a@.skip(i + 1));
        assert(b@.skip(i as int).skip(1) =~= b@.skip(i + 1));
        i = i + 1;
    }
    if i >= b.len() {
        false
    } else if i >= a.len() {
        true
    } else {
        b[i] != '/' && (a[i] == '/' || a[i] < b[i])
    }
}

/// Of two paths that are not the same one comes before the other, and no path
/// comes both before and after another.
pub proof fn one_path_comes_first(a: Seq<char>, b: Seq<char>)
    ensures
        a != b ==> path_before(a, b) != path_before(b, a),
        a == b ==> !path_before(a, b),
    decreases a.len(),
{
    if a.len() == 0 || b.len() == 0 {
        assert(a.len() == 0 && b.len() == 0 ==> a =~= b);
    } else if a[0] == b[0] {
        one_path_comes_first(a.skip(1), b.skip(1));
        if a.skip(1) == b.skip(1) {
            assert(a =~= seq![a[0]] + a.skip(1));
            assert(b =~= seq![b[0]] + b.skip(1));
        }
    }
}

/// What comes before a path comes before all that come after that.
pub proof fn paths_are_in_one_order(a: Seq<char>, b: Seq<char>, c: Seq<char>)
    requires
        path_before(a, b),
        path_before(b, c),
    ensures
        path_before(a, c),
    decreases a.len(),
{
    if a.len() > 0 && a[0] == b[0] && b[0] == c[0] {
        paths_are_in_one_order(a.skip(1), b.skip(1), c.skip(1));
    }
}

/// What is left of `path` inside the folder `root`; `None` where it is not in it.
pub open spec fn inside(path: Seq<char>, root: Seq<char>) -> Option<Seq<char>> {
    if root.len() > path.len() || path.take(root.len() as int) != root {
        None
    } else if root.len() == path.len() || root.len() == 0 || root.last() == '/' {
        Some(path.skip(root.len() as int))
    } else if path[root.len() as int] == '/' {
        Some(path.skip((root.len() + 1) as int))
    } else {
        None
    }
}

/// How the file at `path` is named in a list: from the first of `roots`, from the
/// `from`th on, that it is in, and whole otherwise.
pub open spec fn named_in(path: Seq<char>, roots: Seq<String>, from: int) -> Seq<char>
    decreases roots.len() - from,
{
    if from < 0 || from >= roots.len() {
        path
    } else {
        match inside(path, roots[from]@) {
            Some(name) => name,
            None => named_in(path, roots, from + 1),
        }
    }
}

fn name_inside(path: &Vec<char>, root: &Vec<char>) -> (name: Option<String>)
    ensures
        crate::reply::words(name) == inside(path@, root@),
{
    if root.len() > path.len() {
        return None;
    }
    let mut i: usize = 0;
    while i < root.len()
        invariant
            i <= root@.len() <= path@.len(),
            forall|k: int| 0 <= k < i ==> #[trigger] path@[k] == root@[k],
        decreases root@.len() - i,
    {
        if path[i] != root[i] {
            assert(path@.take(root@.len() as int)[i as int] != root@[i as int]);
            return None;
        }
        i = i + 1;
    }
    assert(path@.take(root@.len() as int) =~= root@);
    let from: usize = if root.len() == path.len() || root.len() == 0 || root[root.len() - 1]
        == '/' {
        root.len()
    } else if path[root.len()] == '/' {
        root.len() + 1
    } else {
        return None;
    };
    let name = string_of(path, from, path.len());
    assert(path@.subrange(from as int, path@.len() as int) =~= path@.skip(from as int));
    Some(name)
}

/// How a file is named in a list: from the project's root when it is in the
/// project, whole otherwise. `roots` is what that root is called: as it was
/// opened, and once links in it are followed.
pub fn label_of(path: &String, roots: &Vec<String>) -> (label: String)
    ensures
        label@ == named_in(path@, roots@, 0),
{
    let chars = chars_of(path.as_str());
    let mut i: usize = 0;
    while i < roots.len()
        invariant
            i <= roots@.len(),
            chars@ == path@,
            named_in(path@, roots@, 0) == named_in(path@, roots@, i as int),
        decreases roots@.len() - i,
    {
        let root = chars_of(roots[i].as_str());
        if let Some(name) = name_inside(&chars, &root) {
            return name;
        }
        i = i + 1;
    }
    path.clone()
}

/// Paths are in the order of their parts: what they share does not count; a path
/// comes before what is in it; and where they part, the one whose part ends there
/// comes first, or else the one with the lesser char.
pub proof fn paths_are_ordered_by_their_parts(shared: Seq<char>, a: Seq<char>, b: Seq<char>)
    ensures
        path_before(shared + a, shared + b) <==> path_before(a, b),
        b.len() > 0 ==> path_before(Seq::empty(), b),
        !path_before(a, Seq::empty()),
        a.len() > 0 && b.len() > 0 && a[0] != b[0] ==> (path_before(a, b) <==> a[0] == '/' || (b[0]
            != '/' && a[0] < b[0])),
    decreases shared.len(),
{
    if shared.len() == 0 {
        assert(shared + a =~= a);
        assert(shared + b =~= b);
    } else {
        let rest = shared.skip(1);
        paths_are_ordered_by_their_parts(rest, a, b);
        assert((shared + a).skip(1) =~= rest + a);
        assert((shared + b).skip(1) =~= rest + b);
        assert((shared + a)[0] == shared[0] && (shared + b)[0] == shared[0]);
    }
}

/// What is in a folder is named by what comes after the folder and the slash; the
/// folder itself by nothing; and what only starts with the same chars is not in it.
pub proof fn a_file_is_named_by_what_follows_its_folder(root: Seq<char>, name: Seq<char>, path: Seq<char>)
    requires
        root.len() > 0,
        root.last() != '/',
    ensures
        inside(root.push('/') + name, root) == Some(name),
        inside(root.push('/') + name, root.push('/')) == Some(name),
        inside(root, root) == Some(Seq::<char>::empty()),
        inside(path, root) matches Some(left) ==> path == root || path == root.push('/') + left,
        path != root && !root.push('/').is_prefix_of(path) ==> inside(path, root) is None,
{
    let whole = root.push('/') + name;
    assert(whole.take(root.len() as int) =~= root);
    assert(whole.skip((root.len() + 1) as int) =~= name);
    assert(whole.take(root.push('/').len() as int) =~= root.push('/'));
    assert(whole.skip(root.push('/').len() as int) =~= name);
    assert(root.take(root.len() as int) =~= root);
    assert(root.skip(root.len() as int) =~= Seq::<char>::empty());
    if path.len() > root.len() && path.take(root.len() as int) == root && path[root.len() as int]
        == '/' {
        assert(path =~= root.push('/') + path.skip((root.len() + 1) as int));
        assert(root.push('/') =~= path.take((root.len() + 1) as int));
    }
    if path.len() == root.len() && path.take(root.len() as int) == root {
        assert(path.take(root.len() as int) =~= path);
    }
}

/// A path is named from the first folder it is in, and in full where it is in none.
pub proof fn a_path_is_named_from_the_first_folder_it_is_in(
    path: Seq<char>,
    roots: Seq<String>,
    from: int,
)
    requires
        0 <= from <= roots.len(),
    ensures
        (forall|i: int| from <= i < roots.len() ==> inside(path, (#[trigger] roots[i])@) is None)
            ==> named_in(path, roots, from) == path,
        forall|i: int|
            #![trigger roots[i]]
            from <= i < roots.len() && inside(path, roots[i]@) is Some && (forall|j: int|
                from <= j < i ==> inside(path, (#[trigger] roots[j])@) is None) ==> Some(
                named_in(path, roots, from),
            ) == inside(path, roots[i]@),
    decreases roots.len() - from,
{
    if from < roots.len() {
        a_path_is_named_from_the_first_folder_it_is_in(path, roots, from + 1);
        assert forall|i: int|
            #![trigger roots[i]]
            from <= i < roots.len() && inside(path, roots[i]@) is Some && (forall|j: int|
                from <= j < i ==> inside(path, (#[trigger] roots[j])@) is None) implies Some(
            named_in(path, roots, from),
        ) == inside(path, roots[i]@) by {
            if i > from {
                assert(inside(path, roots[from]@) is None);
            }
        }
        if forall|i: int|
            from <= i < roots.len() ==> inside(path, (#[trigger] roots[i])@) is None {
            assert(inside(path, roots[from]@) is None);
        }
    }
}

} // verus!
