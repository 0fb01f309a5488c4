use vstd::prelude::*;

pub mod config;
pub mod krate;
pub mod toml_doc;
pub mod workspace;

verus! {

/// The file name of a package or workspace manifest.
pub open spec fn manifest_file_name() -> Seq<char> {
    seq!['C', 'a', 'r', 'g', 'o', '.', 't', 'o', 'm', 'l']
}

/// A path names a manifest when its last component is the manifest file name.
pub open spec fn names_manifest(p: Seq<char>) -> bool {
    &&& p.len() >= 10
    &&& p.subrange(p.len() - 10, p.len() as int) == manifest_file_name()
    &&& (p.len() == 10 || p[p.len() - 11] == '/')
}

/// The directory that holds a manifest path (its last component dropped).
pub open spec fn manifest_parent(p: Seq<char>) -> Seq<char> {
    if p.len() <= 10 {
        Seq::empty()
    } else if p.len() == 11 {
        seq!['/']
    } else {
        p.subrange(0, p.len() - 11)
    }
}

/// `base` joined with a relative component: a separator is put between them
/// unless `base` is empty or already ends with one.
pub open spec fn join_spec(base: Seq<char>, rel: Seq<char>) -> Seq<char> {
    if base.len() == 0 {
        rel
    } else if base[base.len() - 1] == '/' {
        base + rel
    } else {
        base + seq!['/'] + rel
    }
}

/// A path resolved against a working directory: absolute paths stay as they are.
pub open spec fn absolute_spec(cwd: Seq<char>, p: Seq<char>) -> Seq<char> {
    if p.len() > 0 && p[0] == '/' {
        p
    } else {
        join_spec(cwd, p)
    }
}

/// A path without trailing separators (the root `/` stays as it is).
pub open spec fn trim_separators(p: Seq<char>) -> Seq<char>
    decreases p.len(),
{
    if p.len() > 1 && p[p.len() - 1] == '/' {
        trim_separators(p.drop_last())
    } else {
        p
    }
}

/// The (package root, manifest path) pair that a path stands for.
pub open spec fn split_manifest(p: Seq<char>) -> (Seq<char>, Seq<char>) {
    if names_manifest(p) {
        (manifest_parent(p), p)
    } else {
        (trim_separators(p), join_spec(trim_separators(p), manifest_file_name()))
    }
}

proof fn lemma_trim_separators(p: Seq<char>)
    ensures
        trim_separators(p).len() == 0 <==> p.len() == 0,
        trim_separators(p).len() > 1 ==> trim_separators(p)[trim_separators(p).len() - 1] != '/',
    decreases p.len(),
{
    if p.len() > 1 && p[p.len() - 1] == '/' {
        lemma_trim_separators(p.drop_last());
    }
}

/// The path without trailing separators.
fn trim_path(p: &str) -> (r: String)
    ensures
        r@ == trim_separators(p@),
{
    let mut n = p.unicode_len();
    assert(p@.subrange(0, n as int) =~= p@);
    while n > 1 && p.get_char(n - 1) == '/'
        invariant
            n <= p@.len(),
            trim_separators(p@) == trim_separators(p@.subrange(0, n as int)),
        decreases n,
    {
        assert(p@.subrange(0, n as int).drop_last() =~= p@.subrange(0, n - 1));
        n = n - 1;
    }
    assert(p@.subrange(0, n as int).len() == n);
    String::from_str(p.substring_char(0, n))
}

fn manifest_name_string() -> (r: String)
    ensures
        r@ == manifest_file_name(),
{
    proof {
        reveal_strlit("Cargo.toml");
    }
    String::from_str("Cargo.toml")
}

fn has_manifest_name(p: &str) -> (r: bool)
    ensures
        r == names_manifest(p@),
{
    let name = manifest_name_string();
    let n = p.unicode_len();
    if n < 10 {
        return false;
    }
    let mut i: usize = 0;
    while i < 10
        invariant
            n == p@.len(),
            n >= 10,
            name@ == manifest_file_name(),
            i <= 10,
            forall|j: int| 0 <= j < i ==> p@[n - 10 + j] == manifest_file_name()[j],
        decreases 10 - i,
    {
        if p.get_char(n - 10 + i) != name.as_str().get_char(i) {
            assert(p@.subrange(n - 10, n as int)[i as int] != manifest_file_name()[i as int]);
            return false;
        }
        i = i + 1;
    }
    assert(p@.subrange(n - 10, n as int) =~= manifest_file_name());
    n == 10 || p.get_char(n - 11) == '/'
}

/// Joins a relative component onto a base path.
pub fn join_path(base: &str, rel: &str) -> (r: String)
    ensures
        r@ == join_spec(base@, rel@),
{
    let n = base.unicode_len();
    if n == 0 {
        String::from_str(rel)
    } else if base.get_char(n - 1) == '/' {
        String::from_str(base).concat(rel)
    } else {
        proof {
            reveal_strlit("/");
        }
        String::from_str(base).concat("/").concat(rel)
    }
}

/// Resolves a path against the given working directory: an absolute path is
/// returned unchanged, a relative one is joined onto `cwd`.
pub fn absolute_path(cwd: &str, input_path: &str) -> (r: String)
    ensures
        r@ == absolute_spec(cwd@, input_path@),
{
    if input_path.unicode_len() > 0 && input_path.get_char(0) == '/' {
        String::from_str(input_path)
    } else {
        join_path(cwd, input_path)
    }
}

/// Splits a path into the package root and the manifest path. A path that
/// already names a manifest is its own manifest path and its parent is the
/// root; any other path is the root and its manifest lies inside it.
pub fn resolve_manifest_path(path: &String) -> (r: (String, String))
    ensures
        (r.0@, r.1@) == split_manifest(path@),
{
    let p = path.as_str();
    if has_manifest_name(p) {
        let n = p.unicode_len();
        let root = if n <= 10 {
            String::new()
        } else if n == 11 {
            String::from_str(p.substring_char(0, 1))
        } else {
            String::from_str(p.substring_char(0, n - 11))
        };
        proof {
            if n == 11 {
                assert(p@.subrange(0, 1) =~= seq!['/']);
            }
        }
        (root, path.clone())
    } else {
        let name = manifest_name_string();
        let root = trim_path(p);
        let manifest = join_path(root.as_str(), name.as_str());
        (root, manifest)
    }
}

/// Splitting the manifest path of any path again gives the same root and
/// the same manifest path.
pub proof fn lemma_split_manifest_idempotent(p: Seq<char>)
    ensures
        split_manifest(split_manifest(p).1) == split_manifest(p),
{
    let m = manifest_file_name();
    if !names_manifest(p) {
        let q = trim_separators(p);
        lemma_trim_separators(p);
        let j = join_spec(q, m);
        if q.len() == 0 {
            assert(j =~= m);
            assert(j.subrange(0, 10) =~= m);
            assert(names_manifest(j));
        } else if q[q.len() - 1] == '/' {
            assert(q.len() == 1);
            assert(j =~= q + m);
            assert(j.subrange(j.len() - 10, j.len() as int) =~= m);
            assert(j[j.len() - 11] == q[q.len() - 1]);
            assert(names_manifest(j));
            assert(manifest_parent(j) =~= q);
        } else {
            assert(j =~= q + seq!['/'] + m);
            assert(j.subrange(j.len() - 10, j.len() as int) =~= m);
            assert(j[j.len() - 11] == '/');
            assert(names_manifest(j));
            assert(manifest_parent(j) =~= q);
        }
    }
}

} // verus!
