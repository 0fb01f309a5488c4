use peniche_core::krate::{Krate, KrateKind, KrateSource};
use peniche_core::toml_doc::descriptor_members;
use peniche_core::workspace::{MemberRemoval, Workspace, WorkspaceError};

fn member(name: &str, dir: &str) -> Krate {
    Krate::new(name.to_string(), "0.1.0".to_string(), KrateSource::Path(dir.to_string()))
}

fn workspace_with(names: &[&str]) -> Workspace {
    let mut ws = Workspace::new("/tmp/ws".to_string());
    for n in names {
        let dir = ws.member_dir(n);
        ws.insert_member(member(n, &dir));
    }
    ws
}

const DESCRIPTOR: &str =
    "# root\n[workspace]\nresolver = \"2\"\nmembers = [\"foo\", \"bar\"]\n\n[workspace.package]\nedition = \"2021\"\n";

#[test]
fn new_workspace_splits_its_path() {
    let ws = Workspace::new("/tmp/ws/Cargo.toml".to_string());
    assert_eq!(ws.path, "/tmp/ws");
    assert_eq!(ws.manifest_path, "/tmp/ws/Cargo.toml");
    assert!(ws.crates.is_empty());
}

#[test]
fn member_dirs_lie_in_the_root() {
    let ws = Workspace::new("/tmp/ws".to_string());
    assert_eq!(ws.member_dir("foo"), "/tmp/ws/foo");
}

#[test]
fn initial_descriptor_is_empty() {
    let text = Workspace::initial_descriptor("demo");
    assert_eq!(text, "[workspace]\nresolver = \"2\"\nname = \"demo\"\nmembers = []\n");
    assert_eq!(descriptor_members(&text), Some(vec![]));
    assert_eq!(Workspace::initial_descriptor("demo"), text);
}

#[test]
fn initializing_again_writes_nothing() {
    let first = Workspace::descriptor_to_write(false, "demo");
    assert_eq!(first, Some(Workspace::initial_descriptor("demo")));
    assert_eq!(Workspace::descriptor_to_write(true, "demo"), None);
}

#[test]
fn scaffolding_request_follows_kind() {
    let ws = Workspace::new("/tmp/ws".to_string());
    let b = ws.create_member_crate("foo".to_string(), "/tmp/ws/foo".to_string(), KrateKind::Bin);
    assert!(b.bin && !b.lib);
    assert_eq!(b.name, "foo");
    assert_eq!(b.path, "/tmp/ws/foo");
    let l = ws.create_member_crate("bar".to_string(), "/tmp/ws/bar".to_string(), KrateKind::Lib);
    assert!(l.lib && !l.bin);
}

#[test]
fn inserting_a_member_again_replaces_it() {
    let mut ws = workspace_with(&["foo", "bar"]);
    ws.insert_member(member("foo", "/elsewhere/foo"));
    assert_eq!(ws.crates.len(), 2);
    assert!(ws.has_member("foo"));
    assert!(matches!(&ws.find_member("foo").map(|i| &ws.crates[i].path), Some(KrateSource::Path(p)) if p == "/elsewhere/foo"));
}

#[test]
fn removing_a_non_member_changes_nothing() {
    let ws = workspace_with(&["foo"]);
    let r = ws.plan_member_removal("nope", DESCRIPTOR);
    assert!(matches!(r, Ok(MemberRemoval::NotMember)));
    let r = ws.plan_member_removal("nope", "not [ toml");
    assert!(matches!(r, Ok(MemberRemoval::NotMember)));
}

#[test]
fn member_missing_from_descriptor_is_unchanged() {
    let ws = workspace_with(&["baz"]);
    assert!(matches!(ws.plan_member_removal("baz", DESCRIPTOR), Ok(MemberRemoval::Unchanged)));
}

#[test]
fn removed_member_is_not_listed_again() {
    let mut ws = workspace_with(&["foo", "bar"]);
    let text = match ws.plan_member_removal("foo", DESCRIPTOR) {
        Ok(MemberRemoval::Rewrite(t)) => t,
        _ => panic!("expected a rewrite"),
    };
    assert_ne!(text, DESCRIPTOR);
    assert!(text.contains("# root"));
    assert!(text.contains("edition = \"2021\""));
    assert_eq!(descriptor_members(&text), Some(vec![Some("bar".to_string())]));
    let dir = ws.commit_member_removal("foo", false);
    assert_eq!(dir, None);
    assert!(!ws.has_member("foo"));
    assert!(ws.has_member("bar"));
}

#[test]
fn create_then_remove_with_files() {
    let mut ws = workspace_with(&[]);
    let req = ws.create_member_crate("foo".to_string(), ws.member_dir("foo"), KrateKind::Bin);
    ws.insert_member(member(&req.name, &req.path));
    let descriptor = "[workspace]\nresolver = \"2\"\nname = \"demo\"\nmembers = [\"foo\"]\n";
    let text = match ws.plan_member_removal("foo", descriptor) {
        Ok(MemberRemoval::Rewrite(t)) => t,
        _ => panic!("expected a rewrite"),
    };
    assert_eq!(descriptor_members(&text), Some(vec![]));
    assert_eq!(ws.commit_member_removal("foo", true), Some("/tmp/ws/foo".to_string()));
    assert!(!ws.has_member("foo"));
    assert_eq!(ws.commit_member_removal("foo", true), None);
}

#[test]
fn non_string_members_are_kept() {
    let ws = workspace_with(&["foo"]);
    let text = match ws.plan_member_removal("foo", "[workspace]\nmembers = [\"foo\", 3, \"foo\"]\n") {
        Ok(MemberRemoval::Rewrite(t)) => t,
        _ => panic!("expected a rewrite"),
    };
    assert_eq!(descriptor_members(&text), Some(vec![None]));
}

#[test]
fn registry_member_leaves_no_directory_to_delete() {
    let mut ws = workspace_with(&[]);
    ws.insert_member(Krate::new("r".to_string(), "1".to_string(), KrateSource::Registry));
    assert_eq!(ws.commit_member_removal("r", true), None);
    assert!(!ws.has_member("r"));
}

#[test]
fn bad_descriptor_is_an_error() {
    let ws = workspace_with(&["foo"]);
    assert!(matches!(ws.plan_member_removal("foo", "[workspace\n"), Err(WorkspaceError::ManifestIo)));
    assert!(matches!(
        ws.plan_member_removal("foo", "[workspace]\nresolver = \"2\"\n"),
        Err(WorkspaceError::ManifestIo)
    ));
    assert!(matches!(ws.plan_member_removal("foo", "[package]\nname = \"x\"\n"), Err(WorkspaceError::ManifestIo)));
}

#[test]
fn descriptor_members_reads_plain_values() {
    assert_eq!(descriptor_members("x = 1"), None);
    assert_eq!(descriptor_members("[[nope"), None);
    assert_eq!(
        descriptor_members("[workspace]\nmembers = [\"a\", true]\n"),
        Some(vec![Some("a".to_string()), None])
    );
}
