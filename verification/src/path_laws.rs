//! What holds of paths and their parts.
use vstd::prelude::*;

use crate::path;
use crate::text;

verus! {

/// Whether bytes are an ordinary file name: not empty, without a slash, and neither `.` nor `..`.
pub open spec fn is_name(name: Seq<u8>) -> bool {
    name.len() > 0 && !name.contains(47) && name != seq![46u8] && name != seq![46u8, 46u8]
}

proof fn lemma_last_slash(p: Seq<u8>, k: int)
    requires
        0 <= k <= p.len(),
        k > 0 ==> p[k - 1] == 47,
        forall|i: int| k <= i < p.len() ==> p[i] != 47,
    ensures
        path::after_last(p, 47) == k,
{
    path::lemma_after_last(p, 47);
    let n = path::after_last(p, 47);
    if n > k {
        assert(p[n - 1] != 47);
    } else if n < k {
        assert(p[k - 1] != 47);
    }
}

proof fn lemma_last_dot(name: Seq<u8>, k: int)
    requires
        0 <= k <= name.len(),
        k > 0 ==> name[k - 1] == 46,
        forall|i: int| k <= i < name.len() ==> name[i] != 46,
    ensures
        path::after_last(name, 46) == k,
{
    path::lemma_after_last(name, 46);
    let n = path::after_last(name, 46);
    if n > k {
        assert(name[n - 1] != 46);
    } else if n < k {
        assert(name[k - 1] != 46);
    }
}

proof fn lemma_named(directory: Seq<u8>, name: Seq<u8>) -> (p: Seq<u8>)
    requires
        is_name(name),
    ensures
        p == path::join(directory, name),
        path::body(p) == p,
        path::after_last(p, 47) == p.len() - name.len(),
        p.skip(p.len() - name.len()) == name,
        p.len() >= name.len(),
        p.take(p.len() - name.len()) == if directory.len() == 0 || directory.last() == 47 {
            directory
        } else {
            directory.push(47)
        },
{
    let p = path::join(directory, name);
    assert(!name.contains(47));
    assert(name[0] != 47) by {
        assert(name.contains(name[0]));
    }
    let front = if directory.len() == 0 || directory.last() == 47 {
        directory
    } else {
        directory.push(47)
    };
    assert(p =~= front + name);
    let k = front.len() as int;
    assert forall|i: int| k <= i < p.len() implies p[i] != 47 by {
        assert(name.contains(name[i - k]));
    }
    lemma_last_slash(p, k);
    assert(p.skip(k) =~= name);
    assert(p.take(k) =~= front);
    assert(p.last() == name.last());
    assert(name.contains(name.last()));
    if p.len() > 1 && p.last() == 46 && p[p.len() - 2] == 47 {
        if name.len() > 1 {
            assert(name.contains(name[name.len() - 2]));
        } else {
            assert(name =~= seq![46u8]);
        }
    }
    p
}

/// A name in a directory is the final component of the path, the rest of which is the directory.
pub proof fn law_names_in_directories(directory: Seq<u8>, name: Seq<u8>)
    requires
        is_name(name),
    ensures
        path::file_name(path::join(directory, name)) == Some(name),
        path::parent(path::join(directory, name)) == Some(path::body(directory)),
{
    let p = lemma_named(directory, name);
    assert(name != seq![path::DOT]);
    assert(name != seq![path::DOT, path::DOT]);
    assert(p != seq![47u8]) by {
        assert(name.contains(name.last()));
        if p == seq![47u8] {
            assert(p.last() == 47);
            assert(p.skip(p.len() - name.len()).last() == name.last());
        }
    }
    if directory.len() > 0 && directory.last() != 47 {
        let d = directory.push(47);
        assert(d.drop_last() =~= directory);
        assert(path::body(d) == path::body(directory));
    }
}

/// A path that starts at the root stays as it is wherever it is seen from; any other path stands
/// behind the directory with one slash between them.
pub proof fn law_joined_paths(a: Seq<u8>, b: Seq<u8>)
    ensures
        b.len() > 0 && b[0] == 47 ==> path::join(a, b) == b,
        !(b.len() > 0 && b[0] == 47) && a.len() > 0 && a.last() != 47 ==> path::join(a, b) == a
            + seq![47u8] + b,
        !(b.len() > 0 && b[0] == 47) && (a.len() == 0 || a.last() == 47) ==> path::join(a, b) == a
            + b,
        path::is_rooted(b) <==> b.len() > 0 && b[0] == 47,
{
    assert(a.push(47) + b =~= a + seq![47u8] + b);
}

/// The extension of a name is what stands behind its last dot, unless that is its first character;
/// the stem is what stands before it.
pub proof fn law_extensions(p: Seq<u8>, stem: Seq<u8>, extension: Seq<u8>)
    ensures
        stem.len() > 0 && !extension.contains(46) && path::file_name(p) == Some(
            stem.push(46) + extension,
        ) ==> path::extension(p) == Some(extension) && path::file_stem(p) == Some(stem),
        !extension.contains(46) && path::file_name(p) == Some(extension) ==> path::extension(p)
            is None && path::file_stem(p) == Some(extension),
        !extension.contains(46) && path::file_name(p) == Some(seq![46u8] + extension)
            ==> path::extension(p) is None && path::file_stem(p) == Some(seq![46u8] + extension),
        path::file_name(p) is None ==> path::extension(p) is None && path::file_stem(p) is None,
{
    let name = stem.push(46) + extension;
    assert(name[stem.len() as int] == 46);
    if !extension.contains(46) {
        assert forall|i: int| stem.len() + 1 <= i < name.len() implies name[i] != 46 by {
            assert(extension.contains(extension[i - stem.len() - 1]));
        }
        lemma_last_dot(name, stem.len() as int + 1);
        assert(name.skip(stem.len() as int + 1) =~= extension);
        assert(name.take(stem.len() as int) =~= stem);
        assert forall|i: int| 0 <= i < extension.len() implies extension[i] != 46 by {
            assert(extension.contains(extension[i]));
        }
        lemma_last_dot(extension, 0);
        let hidden = seq![46u8] + extension;
        assert forall|i: int| 1 <= i < hidden.len() implies hidden[i] != 46 by {
            assert(extension.contains(extension[i - 1]));
        }
        lemma_last_dot(hidden, 1);
    }
}

/// A path is Matroska by its name exactly where its final component ends in a dot and `mkv`, in any
/// case, with something before them.
pub proof fn law_matroska_names(p: Seq<u8>)
    ensures
        path::is_mkv(p) <==> (path::file_name(p) matches Some(name) && name.len() > 4 && name[
        name.len() - 4] == 46 && (name[name.len() - 3] == 109 || name[name.len() - 3] == 77) && (
        name[name.len() - 2] == 107 || name[name.len() - 2] == 75) && (name[name.len() - 1] == 118
            || name[name.len() - 1] == 86)),
{
    if let Some(name) = path::file_name(p) {
        path::lemma_after_last(name, 46);
        let n = name.len() as int;
        if n > 4 && name[n - 4] == 46 && (name[n - 3] == 109 || name[n - 3] == 77) && (name[n - 2]
            == 107 || name[n - 2] == 75) && (name[n - 1] == 118 || name[n - 1] == 86) {
            lemma_last_dot(name, n - 3);
            let e = name.skip(n - 3);
            assert(e[0] == name[n - 3] && e[1] == name[n - 2] && e[2] == name[n - 1]);
        }
        if path::is_mkv(p) {
            let start = path::extension_start(name);
            let e = name.skip(start);
            assert(e.len() == 3);
            assert(start == n - 3);
            assert(e[0] == name[n - 3] && e[1] == name[n - 2] && e[2] == name[n - 1]);
        }
    }
}

/// Being the same path is an equivalence, and a slash at the end of a path makes no difference. Paths
/// of which only one starts at the root are never the same.
pub proof fn law_same_paths(a: Seq<u8>, b: Seq<u8>, c: Seq<u8>)
    ensures
        path::same_path(a, a),
        path::same_path(a, b) ==> path::same_path(b, a),
        path::same_path(a, b) && path::same_path(b, c) ==> path::same_path(a, c),
        a.len() > 0 ==> path::same_path(a, a.push(47)),
        path::same_path(a, b) ==> path::is_rooted(a) == path::is_rooted(b),
{
    if a.len() > 0 {
        lemma_split_more(a);
        let pieces = text::split(a, 47u8);
        assert(text::split(a.push(47), 47u8) == pieces.push(seq![]));
        assert(pieces.push(seq![]).drop_last() =~= pieces);
        assert(a.push(47)[0] == a[0]);
    }
}

proof fn lemma_split_more(s: Seq<u8>)
    ensures
        text::split(s.push(47), 47u8) == text::split(s, 47u8).push(seq![]),
    decreases s.len(),
{
    let t = s.push(47);
    text::lemma_find(s, 47u8);
    text::lemma_find(t, 47u8);
    assert(t[s.len() as int] == 47);
    assert(t.contains(47));
    if s.contains(47) {
        let k = text::find(s, 47u8);
        assert forall|i: int| 0 <= i < k implies t[i] != 47 by {
            assert(t[i] == s[i]);
        }
        text::lemma_find_unique(t, 47u8, k);
        let rest = s.subrange(k + 1, s.len() as int);
        assert(t.subrange(k + 1, t.len() as int) =~= rest.push(47));
        assert(t.subrange(0, k) =~= s.subrange(0, k));
        lemma_split_more(rest);
        assert(text::split(t, 47u8) =~= text::split(s, 47u8).push(seq![]));
    } else {
        assert forall|i: int| 0 <= i < s.len() implies t[i] != 47 by {
            assert(t[i] == s[i]);
            assert(s.contains(s[i]));
        }
        text::lemma_find_unique(t, 47u8, s.len() as int);
        let rest = t.subrange(s.len() as int + 1, t.len() as int);
        assert(rest =~= seq![]);
        assert(t.subrange(0, s.len() as int) =~= s);
        assert(!rest.contains(47));
        assert(text::split(rest, 47u8) =~= seq![rest]);
        assert(text::split(t, 47u8) =~= seq![s] + seq![rest]);
        assert(text::split(s, 47u8) =~= seq![s]);
        assert(seq![s] + seq![rest] =~= seq![s].push(seq![]));
    }
}

/// Paths of different components are different: two ordinary names in one place are one path only
/// where they are one name.
pub proof fn law_different_names_are_different_paths(a: Seq<u8>, b: Seq<u8>)
    requires
        is_name(a),
        is_name(b),
    ensures
        path::same_path(a, b) <==> a == b,
        path::same_path(seq![47u8] + a, seq![47u8] + b) <==> a == b,
        !path::same_path(a, seq![47u8] + a),
{
    lemma_name_components(a);
    lemma_name_components(b);
    assert(a.contains(a[0]) && b.contains(b[0]));
    if a != b {
        assert(path::components(a)[0] == a);
        assert(path::components(b)[0] == b);
    }
}

proof fn lemma_name_components(a: Seq<u8>)
    requires
        is_name(a),
    ensures
        path::components(a) == seq![a],
        path::components(seq![47u8] + a) == seq![a],
{
    let pieces = text::split(a, 47u8);
    assert(pieces =~= seq![a]);
    assert(pieces.drop_last() =~= seq![]);
    assert(path::kept(pieces.drop_last()) == Seq::<Seq<u8>>::empty());
    assert(a != seq![path::DOT]);
    assert(path::kept(pieces) =~= seq![a]);
    let r = seq![47u8] + a;
    assert(r[0] == 47);
    assert(r.contains(47));
    text::lemma_find_unique(r, 47u8, 0);
    assert(r.subrange(1, r.len() as int) =~= a);
    assert(r.subrange(0, 0) =~= seq![]);
    let two = text::split(r, 47u8);
    assert(two =~= seq![seq![], a]);
    assert(two.drop_last() =~= seq![seq![]]);
    assert(two.drop_last().drop_last() =~= seq![]);
    assert(path::kept(two.drop_last().drop_last()) == Seq::<Seq<u8>>::empty());
    assert(path::kept(two.drop_last()) =~= seq![]);
    assert(path::kept(two) =~= seq![a]);
}

} // verus!
