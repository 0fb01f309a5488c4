use peniche_core::{absolute_path, join_path, resolve_manifest_path};

fn split(p: &str) -> (String, String) {
    resolve_manifest_path(&p.to_string())
}

#[test]
fn directory_gets_manifest_inside() {
    assert_eq!(split("/tmp/ws"), ("/tmp/ws".to_string(), "/tmp/ws/Cargo.toml".to_string()));
}

#[test]
fn manifest_path_gives_its_parent() {
    assert_eq!(
        split("/tmp/ws/Cargo.toml"),
        ("/tmp/ws".to_string(), "/tmp/ws/Cargo.toml".to_string())
    );
}

#[test]
fn bare_manifest_name_has_empty_root() {
    assert_eq!(split("Cargo.toml"), ("".to_string(), "Cargo.toml".to_string()));
    assert_eq!(split(""), ("".to_string(), "Cargo.toml".to_string()));
    assert_eq!(split("/Cargo.toml"), ("/".to_string(), "/Cargo.toml".to_string()));
}

#[test]
fn name_ending_like_manifest_is_a_directory() {
    assert_eq!(split("myCargo.toml"), ("myCargo.toml".to_string(), "myCargo.toml/Cargo.toml".to_string()));
}

#[test]
fn trailing_separators_are_trimmed() {
    assert_eq!(split("a/"), ("a".to_string(), "a/Cargo.toml".to_string()));
    assert_eq!(split("/tmp/ws//"), ("/tmp/ws".to_string(), "/tmp/ws/Cargo.toml".to_string()));
    assert_eq!(split("/"), ("/".to_string(), "/Cargo.toml".to_string()));
    assert_eq!(split("//"), ("/".to_string(), "/Cargo.toml".to_string()));
}

#[test]
fn split_manifest_is_idempotent() {
    for p in ["/tmp/ws", "/tmp/ws/", "/tmp/ws/Cargo.toml", "", "Cargo.toml", "/", "//", "a/", "rel/dir", "x/Cargo.toml", "x/Cargo.toml/"] {
        let (root, manifest) = split(p);
        let (root2, manifest2) = split(&manifest);
        assert_eq!(manifest2, manifest);
        assert_eq!(root2, root);
    }
}

#[test]
fn relative_paths_join_the_working_directory() {
    assert_eq!(absolute_path("/home/u", "ws"), "/home/u/ws");
    assert_eq!(absolute_path("/home/u/", "ws"), "/home/u/ws");
    assert_eq!(absolute_path("/home/u", "/abs/ws"), "/abs/ws");
    assert_eq!(join_path("", "x"), "x");
}
