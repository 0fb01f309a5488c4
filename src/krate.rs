//! The package model: identity, origin and one level of declared dependencies.
use crate::split_manifest;
use crate::resolve_manifest_path;
use crate::toml_doc::{
    insert_dependency,
    parse_document,
    parsed,
    render_document,
    DepShape,
    DepValue,
    TomlView,
};
use vstd::prelude::*;

verus! {

/// Where a package comes from.
pub enum KrateSource {
    Registry,
    Path(String),
    Git(String),
    Workspace,
}

/// The kind of package to scaffold.
#[derive(PartialEq, Eq, Structural, Clone, Copy, Debug)]
pub enum KrateKind {
    Bin,
    Lib,
}

impl Default for KrateKind {
    fn default() -> (r: Self)
        ensures
            r == KrateKind::Bin,
    {
        KrateKind::Bin
    }
}

/// Failures of package operations.
#[derive(PartialEq, Eq, Structural, Clone, Copy, Debug)]
pub enum KrateError {
    /// The package's origin does not allow the operation.
    UnsupportedOrigin,
    /// The manifest could not be parsed or updated.
    ManifestIo,
}

/// One source package.
pub struct Krate {
    pub name: String,
    pub version: String,
    pub path: KrateSource,
    pub manifest_path: Option<String>,
    pub dependencies: Vec<Krate>,
}

/// A dependency as a manifest declares it, in plain values.
pub struct DeclaredDependency {
    pub name: String,
    pub version_req: String,
    /// The location of a path dependency; `None` for any other source.
    pub path_source: Option<String>,
}

/// The manifest path that a package of the given origin has.
pub open spec fn manifest_for(source: KrateSource) -> Option<Seq<char>> {
    match source {
        KrateSource::Path(p) => Some(split_manifest(p@).1),
        _ => None,
    }
}

/// The TOML value that declares a dependency on a package of this origin.
pub open spec fn dependency_shape(k: Krate) -> DepShape {
    match k.path {
        KrateSource::Path(p) => DepShape::Field(seq!['p', 'a', 't', 'h'], p@),
        KrateSource::Git(u) => DepShape::Field(seq!['g', 'i', 't'], u@),
        KrateSource::Registry => DepShape::Text(k.version@),
        KrateSource::Workspace => DepShape::Flag(
            seq!['w', 'o', 'r', 'k', 's', 'p', 'a', 'c', 'e'],
            true,
        ),
    }
}

/// A package list after adding `dep`: a package of the same name is
/// replaced in place (the first one), otherwise `dep` goes last.
pub open spec fn with_package(deps: Seq<Krate>, dep: Krate) -> Seq<Krate> {
    if exists|i: int| 0 <= i < deps.len() && deps[i].name@ == dep.name@ {
        let i = choose|i: int|
            0 <= i < deps.len() && deps[i].name@ == dep.name@ && forall|j: int|
                0 <= j < i ==> deps[j].name@ != dep.name@;
        deps.update(i, dep)
    } else {
        deps.push(dep)
    }
}

/// `w` is what a manifest `v` with dependencies `e` reads after the entry
/// `name` is set to `shape`: the same members, the entry inserted or
/// overwritten, and, where the table was written out, the rest of the text kept.
pub open spec fn relinked(
    w: Option<TomlView>,
    v: TomlView,
    e: Map<Seq<char>, DepShape>,
    name: Seq<char>,
    shape: DepShape,
) -> bool {
    match w {
        Some(w) => {
            &&& w.members == v.members
            &&& w.dependencies == Some(e.insert(name, shape))
            &&& v.dependencies_shown ==> (w.outside_dependency)(name) == (v.outside_dependency)(name)
        },
        None => false,
    }
}

/// The origin of a declared dependency: its path when it has one, else the registry.
pub open spec fn declared_source_is(d: DeclaredDependency, s: KrateSource) -> bool {
    match d.path_source {
        Some(p) => s matches KrateSource::Path(q) && q@ == p@,
        None => s is Registry,
    }
}

/// `k` is the package materialized from a declared dependency.
pub open spec fn materializes(k: Krate, d: DeclaredDependency) -> bool {
    &&& k.name@ == d.name@
    &&& k.version@ == d.version_req@
    &&& declared_source_is(d, k.path)
    &&& opt_view(k.manifest_path) == manifest_for(k.path)
    &&& k.dependencies@.len() == 0
}

/// The names of the dependencies after materializing the first `n`
/// declarations, in order of first appearance.
pub open spec fn declared_names(decls: Seq<DeclaredDependency>, n: nat) -> Seq<Seq<char>>
    decreases n,
{
    if n == 0 {
        Seq::empty()
    } else {
        let prev = declared_names(decls, (n - 1) as nat);
        let name = decls[n - 1].name@;
        if prev.contains(name) {
            prev
        } else {
            prev.push(name)
        }
    }
}

/// The last of the first `n` declarations that carries `name`.
pub open spec fn last_declared(decls: Seq<DeclaredDependency>, n: nat, name: Seq<char>) -> int
    decreases n,
{
    if n == 0 {
        -1
    } else if decls[n - 1].name@ == name {
        n - 1
    } else {
        last_declared(decls, (n - 1) as nat, name)
    }
}

/// The text an optional string holds.
pub open spec fn opt_view(o: Option<String>) -> Option<Seq<char>> {
    match o {
        Some(s) => Some(s@),
        None => None,
    }
}

fn same_text(a: &String, b: &String) -> (r: bool)
    ensures
        r == (a@ == b@),
{
    a.eq(b)
}

fn path_word() -> (r: String)
    ensures
        r@ == seq!['p', 'a', 't', 'h'],
{
    proof {
        reveal_strlit("path");
    }
    String::from_str("path")
}

fn git_word() -> (r: String)
    ensures
        r@ == seq!['g', 'i', 't'],
{
    proof {
        reveal_strlit("git");
    }
    String::from_str("git")
}

fn workspace_word() -> (r: String)
    ensures
        r@ == seq!['w', 'o', 'r', 'k', 's', 'p', 'a', 'c', 'e'],
{
    proof {
        reveal_strlit("workspace");
    }
    String::from_str("workspace")
}

impl Krate {
    /// Well-formed: the manifest path follows from the origin, and no two
    /// dependencies share a name.
    pub open spec fn wf(&self) -> bool {
        &&& opt_view(self.manifest_path) == manifest_for(self.path)
        &&& forall|i: int, j: int|
            0 <= i < self.dependencies@.len() && 0 <= j < self.dependencies@.len()
                && self.dependencies@[i].name@ == self.dependencies@[j].name@ ==> i == j
    }

    /// A package with no dependencies; a package at a local path gets the
    /// manifest path inside it.
    pub fn new(name: String, version: String, source: KrateSource) -> (r: Krate)
        ensures
            r.name == name,
            r.version == version,
            r.path == source,
            opt_view(r.manifest_path) == manifest_for(source),
            r.dependencies@.len() == 0,
            r.wf(),
    {
        let manifest_path = match &source {
            KrateSource::Path(path) => Some(resolve_manifest_path(path).1),
            _ => None,
        };
        Krate { name, version, path: source, manifest_path, dependencies: Vec::new() }
    }

    /// The package that a declared dependency stands for.
    pub fn from_cargo_dependency(dep: &DeclaredDependency, source: KrateSource) -> (r: Krate)
        ensures
            r.name@ == dep.name@,
            r.version@ == dep.version_req@,
            r.path == source,
            opt_view(r.manifest_path) == manifest_for(source),
            r.dependencies@.len() == 0,
    {
        Krate::new(dep.name.clone(), dep.version_req.clone(), source)
    }

    /// Adds a dependency, replacing one of the same name.
    pub fn add_dependency(&mut self, dep: Krate)
        ensures
            final(self).name == old(self).name,
            final(self).version == old(self).version,
            final(self).path == old(self).path,
            final(self).manifest_path == old(self).manifest_path,
            final(self).dependencies@ == with_package(old(self).dependencies@, dep),
            old(self).wf() ==> final(self).wf(),
    {
        let mut i: usize = 0;
        let n = self.dependencies.len();
        while i < n
            invariant
                n == self.dependencies@.len(),
                self == old(self),
                i <= n,
                forall|j: int| 0 <= j < i ==> self.dependencies@[j].name@ != dep.name@,
            decreases n - i,
        {
            if same_text(&self.dependencies[i].name, &dep.name) {
                let ghost deps = self.dependencies@;
                assert(0 <= i < deps.len() && deps[i as int].name@ == dep.name@);
                let ghost c = choose|k: int|
                    0 <= k < deps.len() && deps[k].name@ == dep.name@ && forall|j: int|
                        0 <= j < k ==> deps[j].name@ != dep.name@;
                assert(c == i as int) by {
                    if c < i {
                    } else if c > i {
                    }
                }
                self.dependencies.set(i, dep);
                proof {
                    if old(self).wf() {
                        assert forall|a: int, b: int|
                            0 <= a < self.dependencies@.len() && 0 <= b < self.dependencies@.len()
                                && self.dependencies@[a].name@ == self.dependencies@[b].name@
                            implies a == b by {
                            if a != i && b != i {
                                assert(deps[a].name@ == deps[b].name@);
                            } else if a == i && b != i {
                                assert(deps[b].name@ == deps[i as int].name@);
                            } else if b == i && a != i {
                                assert(deps[a].name@ == deps[i as int].name@);
                            }
                        }
                    }
                }
                return;
            }
            i = i + 1;
        }
        self.dependencies.push(dep);
    }

    /// The TOML value that declares a dependency on this package.
    pub fn as_cargo_dependency(&self) -> (r: DepValue)
        ensures
            r.shape() == dependency_shape(*self),
    {
        match &self.path {
            KrateSource::Path(p) => DepValue::Field(path_word(), p.clone()),
            KrateSource::Git(u) => DepValue::Field(git_word(), u.clone()),
            KrateSource::Registry => DepValue::Text(self.version.clone()),
            KrateSource::Workspace => DepValue::Flag(workspace_word(), true),
        }
    }

    /// The manifest text after declaring `dep` as a dependency of this
    /// package: the entry under `dep`'s name is inserted or overwritten, the
    /// rest of the document kept.
    pub fn link_to(&self, dep: &Krate, manifest_text: &str) -> (r: Result<String, KrateError>)
        ensures
            self.manifest_path is None ==> r == Err::<String, KrateError>(
                KrateError::UnsupportedOrigin,
            ),
            self.manifest_path is Some ==> match parsed(manifest_text@) {
                None => r == Err::<String, KrateError>(KrateError::ManifestIo),
                Some(v) => match v.dependencies {
                    None => r == Err::<String, KrateError>(KrateError::ManifestIo),
                    Some(e) => r matches Ok(t) && relinked(
                        parsed(t@),
                        v,
                        e,
                        dep.name@,
                        dependency_shape(*dep),
                    ),
                },
            },
    {
        if self.manifest_path.is_none() {
            return Err(KrateError::UnsupportedOrigin);
        }
        let mut doc = match parse_document(manifest_text) {
            Ok(d) => d,
            Err(_) => return Err(KrateError::ManifestIo),
        };
        let value = dep.as_cargo_dependency();
        if !insert_dependency(&mut doc, dep.name.as_str(), &value) {
            return Err(KrateError::ManifestIo);
        }
        Ok(render_document(&doc))
    }

    /// The directory to build and install from, for a package at a local path.
    pub fn install_root(&self) -> (r: Result<String, KrateError>)
        ensures
            match self.path {
                KrateSource::Path(p) => r matches Ok(q) && q@ == p@,
                _ => r == Err::<String, KrateError>(KrateError::UnsupportedOrigin),
            },
    {
        match &self.path {
            KrateSource::Path(p) => Ok(p.clone()),
            _ => Err(KrateError::UnsupportedOrigin),
        }
    }

    /// The package whose manifest at `path` declares `name`, `version` and
    /// the dependencies `decls`; each dependency is materialized one level
    /// deep, from a local path when it has one, else from the registry. Of
    /// two declarations with one name the later one counts.
    pub fn from_manifest(
        path: String,
        name: String,
        version: String,
        decls: &Vec<DeclaredDependency>,
    ) -> (r: Krate)
        ensures
            r.name == name,
            r.version == version,
            r.path == KrateSource::Path(path),
            r.wf(),
            r.dependencies@.map_values(|k: Krate| k.name@) == declared_names(
                decls@,
                decls@.len(),
            ),
            forall|i: int|
                0 <= i < r.dependencies@.len() ==> materializes(
                    #[trigger] r.dependencies@[i],
                    decls@[last_declared(decls@, decls@.len(), r.dependencies@[i].name@)],
                ),
    {
        let mut k = Krate::new(name, version, KrateSource::Path(path));
        let mut i: usize = 0;
        while i < decls.len()
            invariant
                i <= decls@.len(),
                k.name == name,
                k.version == version,
                k.path == KrateSource::Path(path),
                k.wf(),
                k.dependencies@.map_values(|d: Krate| d.name@) == declared_names(decls@, i as nat),
                forall|j: int|
                    0 <= j < k.dependencies@.len() ==> materializes(
                        #[trigger] k.dependencies@[j],
                        decls@[last_declared(decls@, i as nat, k.dependencies@[j].name@)],
                    ),
            decreases decls@.len() - i,
        {
            let d = &decls[i];
            let source = match &d.path_source {
                Some(p) => KrateSource::Path(p.clone()),
                None => KrateSource::Registry,
            };
            let dep = Krate::from_cargo_dependency(d, source);
            let ghost before = k.dependencies@;
            k.add_dependency(dep);
            proof {
                let names = before.map_values(|x: Krate| x.name@);
                let ii = (i + 1) as nat;
                assert(decls@[ii - 1] == *d);
                if exists|j: int| 0 <= j < before.len() && before[j].name@ == d.name@ {
                    let c = choose|j: int|
                        0 <= j < before.len() && before[j].name@ == d.name@ && forall|l: int|
                            0 <= l < j ==> before[l].name@ != d.name@;
                    assert(names[c] == d.name@);
                    assert(names.contains(d.name@));
                    assert(k.dependencies@.map_values(|x: Krate| x.name@) =~= names);
                    assert forall|j: int| 0 <= j < k.dependencies@.len() implies materializes(
                        #[trigger] k.dependencies@[j],
                        decls@[last_declared(decls@, ii, k.dependencies@[j].name@)],
                    ) by {
                        if j != c {
                            assert(k.dependencies@[j] == before[j]);
                            assert(names[j] != names[c]);
                        }
                    }
                } else {
                    assert(!names.contains(d.name@)) by {
                        if names.contains(d.name@) {
                            let j = choose|j: int| 0 <= j < names.len() && names[j] == d.name@;
                            assert(before[j].name@ == d.name@);
                        }
                    }
                    assert(k.dependencies@.map_values(|x: Krate| x.name@) =~= names.push(
                        d.name@,
                    ));
                    assert forall|j: int| 0 <= j < k.dependencies@.len() implies materializes(
                        #[trigger] k.dependencies@[j],
                        decls@[last_declared(decls@, ii, k.dependencies@[j].name@)],
                    ) by {
                        if j < before.len() {
                            assert(k.dependencies@[j] == before[j]);
                            assert(names[j] != d.name@);
                        }
                    }
                    assert forall|a: int, b: int|
                        0 <= a < k.dependencies@.len() && 0 <= b < k.dependencies@.len()
                            && k.dependencies@[a].name@ == k.dependencies@[b].name@ implies a
                        == b by {
                        if a < before.len() && b == before.len() {
                            assert(names[a] == d.name@);
                        } else if b < before.len() && a == before.len() {
                            assert(names[b] == d.name@);
                        }
                    }
                }
            }
            i = i + 1;
        }
        assert(decls@.len() == i);
        k
    }
}

} // verus!
