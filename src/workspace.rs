//! The workspace model: a root, its descriptor and the member packages.
use crate::join_path;
use crate::join_spec;
use crate::krate::{with_package, Krate, KrateKind, KrateSource};
use crate::resolve_manifest_path;
use crate::split_manifest;
use crate::toml_doc::{
    doc_view,
    keep_entry,
    keeps_member,
    member_entries,
    parse_document,
    parsed,
    render_document,
    retain_members,
    TomlView,
};
use vstd::prelude::*;

verus! {

/// A workspace: its root directory, descriptor path and member packages.
pub struct Workspace {
    pub path: String,
    pub manifest_path: String,
    pub crates: Vec<Krate>,
}

/// Failures of workspace operations.
#[derive(PartialEq, Eq, Structural, Clone, Copy, Debug)]
pub enum WorkspaceError {
    /// The descriptor could not be parsed, or has no member list.
    ManifestIo,
}

/// What removing a member does to the descriptor.
pub enum MemberRemoval {
    /// The name is no member: nothing is to change.
    NotMember,
    /// The descriptor does not list the name: nothing is to change.
    Unchanged,
    /// The descriptor text to write back.
    Rewrite(String),
}

/// What scaffolding a new member package takes.
pub struct NewCrate {
    pub name: String,
    pub path: String,
    pub bin: bool,
    pub lib: bool,
}

/// The member list with every entry of `name` dropped.
pub open spec fn without_member(ms: Seq<Option<Seq<char>>>, name: Seq<char>) -> Seq<
    Option<Seq<char>>,
> {
    ms.filter(|e: Option<Seq<char>>| keeps_member(e, name))
}

/// `w` is what descriptor `v` with members `ms` reads after every entry
/// `name` is dropped: the other members in order, and everything outside the
/// member list kept.
pub open spec fn pruned(
    w: Option<TomlView>,
    v: TomlView,
    ms: Seq<Option<Seq<char>>>,
    name: Seq<char>,
) -> bool {
    match w {
        Some(w) => {
            &&& w.members == Some(without_member(ms, name))
            &&& w.dependencies == v.dependencies
            &&& w.outside_members == v.outside_members
        },
        None => false,
    }
}

/// The text of a fresh descriptor for a workspace called `name`.
pub open spec fn initial_descriptor_spec(name: Seq<char>) -> Seq<char> {
    "[workspace]\nresolver = \"2\"\nname = \""@ + name + "\"\nmembers = []\n"@
}

impl Workspace {
    /// The members' names, in order.
    pub open spec fn member_names(&self) -> Seq<Seq<char>> {
        self.crates@.map_values(|k: Krate| k.name@)
    }

    pub open spec fn has_member_spec(&self, name: Seq<char>) -> bool {
        exists|i: int| 0 <= i < self.crates@.len() && self.crates@[i].name@ == name
    }

    /// Well-formed: no two members share a name.
    pub open spec fn wf(&self) -> bool {
        forall|i: int, j: int|
            0 <= i < self.crates@.len() && 0 <= j < self.crates@.len() && self.crates@[i].name@
                == self.crates@[j].name@ ==> i == j
    }

    /// An empty workspace rooted at `path` (or at the directory of the
    /// descriptor that `path` names).
    pub fn new(path: String) -> (r: Workspace)
        ensures
            (r.path@, r.manifest_path@) == split_manifest(path@),
            r.crates@.len() == 0,
            r.wf(),
    {
        let (path, manifest_path) = resolve_manifest_path(&path);
        Workspace { path, manifest_path, crates: Vec::new() }
    }

    /// The position of the member called `name`.
    pub fn find_member(&self, name: &str) -> (r: Option<usize>)
        ensures
            r matches Some(i) ==> i < self.crates@.len() && self.crates@[i as int].name@ == name@,
            r is None <==> !self.has_member_spec(name@),
            r matches Some(i) ==> forall|j: int| 0 <= j < i ==> self.crates@[j].name@ != name@,
    {
        let key = String::from_str(name);
        let mut i: usize = 0;
        while i < self.crates.len()
            invariant
                i <= self.crates@.len(),
                key@ == name@,
                forall|j: int| 0 <= j < i ==> self.crates@[j].name@ != name@,
            decreases self.crates@.len() - i,
        {
            if self.crates[i].name.eq(&key) {
                return Some(i);
            }
            i = i + 1;
        }
        None
    }

    /// Whether a member is called `name`.
    pub fn has_member(&self, name: &str) -> (r: bool)
        ensures
            r == self.has_member_spec(name@),
    {
        self.find_member(name).is_some()
    }

    /// Adds a member package, replacing one of the same name.
    pub fn insert_member(&mut self, k: Krate)
        requires
            old(self).wf(),
        ensures
            final(self).wf(),
            final(self).path == old(self).path,
            final(self).manifest_path == old(self).manifest_path,
            final(self).has_member_spec(k.name@),
            exists|i: int| 0 <= i < final(self).crates@.len() && final(self).crates@[i] == k,
            final(self).crates@ == with_package(old(self).crates@, k),
            forall|n: Seq<char>|
                n != k.name@ ==> (final(self).has_member_spec(n) == old(self).has_member_spec(n)),
    {
        let ghost name = k.name@;
        match self.find_member(k.name.as_str()) {
            Some(i) => {
                let ghost before = self.crates@;
                proof {
                    let c = choose|c: int|
                        0 <= c < before.len() && before[c].name@ == name && forall|j: int|
                            0 <= j < c ==> before[j].name@ != name;
                    assert(c == i as int) by {
                        if c < i {
                        } else if c > i {
                        }
                    }
                }
                self.crates.set(i, k);
                proof {
                    assert(self.crates@[i as int] == k);
                    assert(self.crates@[i as int].name@ == name);
                    assert forall|a: int, b: int|
                        0 <= a < self.crates@.len() && 0 <= b < self.crates@.len()
                            && self.crates@[a].name@ == self.crates@[b].name@ implies a == b by {
                        if a != i && b != i {
                            assert(before[a].name@ == before[b].name@);
                        } else if a == i && b != i {
                            assert(before[b].name@ == before[i as int].name@);
                        } else if b == i && a != i {
                            assert(before[a].name@ == before[i as int].name@);
                        }
                    }
                    assert forall|n: Seq<char>| n != name implies (self.has_member_spec(n)
                        == old(self).has_member_spec(n)) by {
                        if old(self).has_member_spec(n) {
                            let j = choose|j: int|
                                0 <= j < before.len() && before[j].name@ == n;
                            assert(j != i);
                            assert(self.crates@[j].name@ == n);
                        }
                        if self.has_member_spec(n) {
                            let j = choose|j: int|
                                0 <= j < self.crates@.len() && self.crates@[j].name@ == n;
                            assert(j != i);
                            assert(before[j].name@ == n);
                        }
                    }
                }
            },
            None => {
                let ghost before = self.crates@;
                self.crates.push(k);
                proof {
                    let last = before.len() as int;
                    assert(self.crates@[last] == k);
                    assert(self.crates@[last].name@ == name);
                    assert forall|n: Seq<char>| n != name implies (self.has_member_spec(n)
                        == old(self).has_member_spec(n)) by {
                        if old(self).has_member_spec(n) {
                            let j = choose|j: int|
                                0 <= j < before.len() && before[j].name@ == n;
                            assert(self.crates@[j].name@ == n);
                        }
                        if self.has_member_spec(n) {
                            let j = choose|j: int|
                                0 <= j < self.crates@.len() && self.crates@[j].name@ == n;
                            assert(j != last);
                            assert(before[j].name@ == n);
                        }
                    }
                    assert forall|a: int, b: int|
                        0 <= a < self.crates@.len() && 0 <= b < self.crates@.len()
                            && self.crates@[a].name@ == self.crates@[b].name@ implies a == b by {
                        if a < last && b == last {
                            assert(before[a].name@ == name);
                        } else if b < last && a == last {
                            assert(before[b].name@ == name);
                        }
                    }
                }
            },
        }
    }

    /// The directory of a new member called `name`, inside the workspace root.
    pub fn member_dir(&self, name: &str) -> (r: String)
        ensures
            r@ == join_spec(self.path@, name@),
    {
        join_path(self.path.as_str(), name)
    }

    /// What scaffolding a member package of the given kind takes.
    pub fn create_member_crate(&self, name: String, path: String, kind: KrateKind) -> (r: NewCrate)
        ensures
            r.name == name,
            r.path == path,
            r.bin == (kind == KrateKind::Bin),
            r.lib == (kind == KrateKind::Lib),
    {
        NewCrate { name, path, bin: kind == KrateKind::Bin, lib: kind == KrateKind::Lib }
    }

    /// The descriptor change that removing the member `name` takes, worked
    /// out on the descriptor text as it is on disk now.
    pub fn plan_member_removal(&self, name: &str, descriptor: &str) -> (r: Result<
        MemberRemoval,
        WorkspaceError,
    >)
        ensures
            !self.has_member_spec(name@) ==> r matches Ok(MemberRemoval::NotMember),
            self.has_member_spec(name@) ==> match parsed(descriptor@) {
                Some(v) => match v.members {
                    Some(ms) => if ms.contains(Some(name@)) {
                        r matches Ok(MemberRemoval::Rewrite(t)) && pruned(parsed(t@), v, ms, name@)
                    } else {
                        r matches Ok(MemberRemoval::Unchanged)
                    },
                    None => r == Err::<MemberRemoval, WorkspaceError>(WorkspaceError::ManifestIo),
                },
                None => r == Err::<MemberRemoval, WorkspaceError>(WorkspaceError::ManifestIo),
            },
    {
        if !self.has_member(name) {
            return Ok(MemberRemoval::NotMember);
        }
        let mut doc = match parse_document(descriptor) {
            Ok(d) => d,
            Err(_) => return Err(WorkspaceError::ManifestIo),
        };
        let entries = match member_entries(&doc) {
            Some(e) => e,
            None => return Err(WorkspaceError::ManifestIo),
        };
        let ghost ms = doc_view(doc).members->0;
        let mut listed = false;
        let mut i: usize = 0;
        while i < entries.len()
            invariant
                i <= entries@.len(),
                entries@.len() == ms.len(),
                forall|j: int|
                    0 <= j < entries@.len() ==> (match #[trigger] entries@[j] {
                        Some(s) => Some(s@),
                        None => None,
                    }) == ms[j],
                listed == (exists|j: int| 0 <= j < i && ms[j] == Some(name@)),
            decreases entries@.len() - i,
        {
            let entry = match &entries[i] {
                Some(s) => Some(s.as_str()),
                None => None,
            };
            if !keep_entry(entry, name) {
                listed = true;
            }
            i = i + 1;
        }
        if !listed {
            assert(!ms.contains(Some(name@)));
            return Ok(MemberRemoval::Unchanged);
        }
        assert(ms.contains(Some(name@)));
        retain_members(&mut doc, name);
        Ok(MemberRemoval::Rewrite(render_document(&doc)))
    }

    /// Drops the member `name` once its removal from the descriptor is
    /// written; gives the directory to delete when `delete_files` is set and
    /// the member lives at a local path.
    pub fn commit_member_removal(&mut self, name: &str, delete_files: bool) -> (r: Option<String>)
        ensures
            final(self).path == old(self).path,
            final(self).manifest_path == old(self).manifest_path,
            !old(self).has_member_spec(name@) ==> final(self).crates@ == old(self).crates@ && r
                is None,
            old(self).has_member_spec(name@) ==> exists|i: int|
                0 <= i < old(self).crates@.len() && old(self).crates@[i].name@ == name@
                    && final(self).crates@ == old(self).crates@.remove(i) && match r {
                    Some(d) => delete_files && (old(self).crates@[i].path matches KrateSource::Path(
                        p,
                    ) && p@ == d@),
                    None => !delete_files || !(old(self).crates@[i].path is Path),
                },
            old(self).wf() ==> !final(self).has_member_spec(name@),
            old(self).wf() ==> final(self).wf(),
    {
        match self.find_member(name) {
            None => None,
            Some(i) => {
                let ghost before = self.crates@;
                let k = self.crates.remove(i);
                proof {
                    assert(self.crates@ == before.remove(i as int));
                    if old(self).wf() {
                        assert forall|j: int| 0 <= j < self.crates@.len() implies self.crates@[j].name@
                            != name@ by {
                            if j < i {
                                assert(self.crates@[j] == before[j]);
                            } else {
                                assert(self.crates@[j] == before[j + 1]);
                            }
                        }
                        assert forall|a: int, b: int|
                            0 <= a < self.crates@.len() && 0 <= b < self.crates@.len()
                                && self.crates@[a].name@ == self.crates@[b].name@ implies a
                            == b by {
                            let a2 = if a < i { a } else { a + 1 };
                            let b2 = if b < i { b } else { b + 1 };
                            assert(self.crates@[a] == before[a2]);
                            assert(self.crates@[b] == before[b2]);
                        }
                    }
                }
                if delete_files {
                    match k.path {
                        KrateSource::Path(p) => Some(p),
                        _ => None,
                    }
                } else {
                    None
                }
            },
        }
    }

    /// The descriptor text of a fresh workspace called `name`: an empty
    /// member list and the resolver version marker.
    pub fn initial_descriptor(name: &str) -> (r: String)
        ensures
            r@ == initial_descriptor_spec(name@),
    {
        proof {
            reveal_strlit("[workspace]\nresolver = \"2\"\nname = \"");
            reveal_strlit("\"\nmembers = []\n");
        }
        String::from_str("[workspace]\nresolver = \"2\"\nname = \"").concat(name).concat(
            "\"\nmembers = []\n",
        )
    }

    /// The descriptor to write when initializing a workspace called `name`:
    /// none when one exists already, so that initializing again changes nothing.
    pub fn descriptor_to_write(exists: bool, name: &str) -> (r: Option<String>)
        ensures
            r is Some <==> !exists,
            r matches Some(t) ==> t@ == initial_descriptor_spec(name@),
    {
        if exists {
            None
        } else {
            Some(Workspace::initial_descriptor(name))
        }
    }
}

/// After a member is removed from a descriptor, a fresh reading of the
/// rewritten descriptor never lists it again.
pub proof fn lemma_removed_member_not_listed(ms: Seq<Option<Seq<char>>>, name: Seq<char>)
    ensures
        !without_member(ms, name).contains(Some(name)),
{
    let f = |e: Option<Seq<char>>| keeps_member(e, name);
    broadcast use vstd::seq_lib::group_filter_ensures;

    if without_member(ms, name).contains(Some(name)) {
        let i = choose|i: int|
            0 <= i < without_member(ms, name).len() && without_member(ms, name)[i] == Some(name);
        assert(f(without_member(ms, name)[i]));
    }
}

} // verus!
