use peniche_core::krate::{DeclaredDependency, Krate, KrateError, KrateKind, KrateSource};
use peniche_core::toml_doc::{dependency_names, DepValue};

fn local(name: &str, dir: &str) -> Krate {
    Krate::new(name.to_string(), "0.1.0".to_string(), KrateSource::Path(dir.to_string()))
}

#[test]
fn local_package_gets_manifest_path() {
    let k = local("foo", "/ws/foo");
    assert_eq!(k.manifest_path, Some("/ws/foo/Cargo.toml".to_string()));
    assert!(k.dependencies.is_empty());
}

#[test]
fn other_origins_have_no_manifest_path() {
    let r = Krate::new("a".to_string(), "1".to_string(), KrateSource::Registry);
    assert_eq!(r.manifest_path, None);
    let g = Krate::new("a".to_string(), "1".to_string(), KrateSource::Git("https://x/y".to_string()));
    assert_eq!(g.manifest_path, None);
    let w = Krate::new("a".to_string(), "1".to_string(), KrateSource::Workspace);
    assert_eq!(w.manifest_path, None);
}

#[test]
fn default_kind_is_binary() {
    assert_eq!(KrateKind::default(), KrateKind::Bin);
}

#[test]
fn adding_a_dependency_twice_keeps_one() {
    let mut k = local("app", "/ws/app");
    k.add_dependency(Krate::new("serde".to_string(), "1.0".to_string(), KrateSource::Registry));
    k.add_dependency(Krate::new("log".to_string(), "0.4".to_string(), KrateSource::Registry));
    k.add_dependency(Krate::new("serde".to_string(), "1.1".to_string(), KrateSource::Registry));
    assert_eq!(k.dependencies.len(), 2);
    assert_eq!(k.dependencies[0].name, "serde");
    assert_eq!(k.dependencies[0].version, "1.1");
    assert_eq!(k.dependencies[1].name, "log");
}

#[test]
fn dependency_values_by_origin() {
    match local("b", "../b").as_cargo_dependency() {
        DepValue::Field(f, t) => {
            assert_eq!(f, "path");
            assert_eq!(t, "../b");
        }
        _ => panic!("expected a path table"),
    }
    match Krate::new("c".to_string(), "2.0".to_string(), KrateSource::Registry).as_cargo_dependency() {
        DepValue::Text(t) => assert_eq!(t, "2.0"),
        _ => panic!("expected a version string"),
    }
    match Krate::new("d".to_string(), "1".to_string(), KrateSource::Git("https://g/d".to_string()))
        .as_cargo_dependency()
    {
        DepValue::Field(f, t) => {
            assert_eq!(f, "git");
            assert_eq!(t, "https://g/d");
        }
        _ => panic!("expected a git table"),
    }
    match Krate::new("e".to_string(), "1".to_string(), KrateSource::Workspace).as_cargo_dependency() {
        DepValue::Flag(f, b) => {
            assert_eq!(f, "workspace");
            assert!(b);
        }
        _ => panic!("expected a workspace flag"),
    }
}

const MANIFEST: &str = "[package]\nname = \"app\"\nversion = \"0.1.0\"\n\n[dependencies]\nlog = \"0.4\" # logging\n";

#[test]
fn link_inserts_a_path_dependency() {
    let app = local("app", "/ws/app");
    let b = local("b", "../b");
    let out = app.link_to(&b, MANIFEST).unwrap();
    assert_ne!(out, MANIFEST);
    assert!(out.contains("# logging"));
    assert!(out.contains("path = \"../b\""));
    assert_eq!(dependency_names(&out), Some(vec!["log".to_string(), "b".to_string()]));
}

fn sorted(mut v: Vec<String>) -> Vec<String> {
    v.sort();
    v
}

#[test]
fn link_beside_dependency_sections_keeps_the_rest() {
    let manifest = "[package]\nname = \"app\"\n\n[dependencies]\nlog = \"0.4\"\n\n[dependencies.serde]\nversion = \"1\"\n";
    let app = local("app", "/ws/app");
    let b = Krate::new("b".to_string(), "2".to_string(), KrateSource::Registry);
    let out = app.link_to(&b, manifest).unwrap();
    let names = sorted(dependency_names(&out).unwrap());
    assert_eq!(names, vec!["b".to_string(), "log".to_string(), "serde".to_string()]);
    assert_eq!(out.replace("b = \"2\"\n", ""), manifest);
}

#[test]
fn link_twice_keeps_one_entry() {
    let app = local("app", "/ws/app");
    let b = local("b", "../b");
    let once = app.link_to(&b, MANIFEST).unwrap();
    let twice = app.link_to(&b, &once).unwrap();
    let names = dependency_names(&twice).unwrap();
    assert_eq!(names.iter().filter(|n| n.as_str() == "b").count(), 1);
    assert_eq!(twice, once);
}

#[test]
fn link_overwrites_an_existing_entry() {
    let app = local("app", "/ws/app");
    let log = Krate::new("log".to_string(), "0.5".to_string(), KrateSource::Registry);
    let out = app.link_to(&log, MANIFEST).unwrap();
    assert_eq!(dependency_names(&out), Some(vec!["log".to_string()]));
    assert!(out.contains("\"0.5\""));
    assert!(!out.contains("\"0.4\""));
}

#[test]
fn link_creates_a_missing_dependencies_table() {
    let app = local("app", "/ws/app");
    let w = Krate::new("core".to_string(), "1".to_string(), KrateSource::Workspace);
    let out = app.link_to(&w, "[package]\nname = \"app\"\n").unwrap();
    assert_eq!(dependency_names(&out), Some(vec!["core".to_string()]));
    assert!(out.contains("workspace = true"));
}

#[test]
fn link_needs_a_manifest_path() {
    let reg = Krate::new("a".to_string(), "1".to_string(), KrateSource::Registry);
    let b = local("b", "../b");
    assert_eq!(reg.link_to(&b, MANIFEST), Err(KrateError::UnsupportedOrigin));
}

#[test]
fn link_fails_on_bad_manifest() {
    let app = local("app", "/ws/app");
    let b = local("b", "../b");
    assert_eq!(app.link_to(&b, "[package\nname ="), Err(KrateError::ManifestIo));
    assert_eq!(app.link_to(&b, "dependencies = \"x\"\n"), Err(KrateError::ManifestIo));
}

#[test]
fn install_needs_a_local_path() {
    assert_eq!(local("a", "/ws/a").install_root(), Ok("/ws/a".to_string()));
    let reg = Krate::new("a".to_string(), "1".to_string(), KrateSource::Registry);
    assert_eq!(reg.install_root(), Err(KrateError::UnsupportedOrigin));
}

#[test]
fn manifest_dependencies_are_materialized_one_level() {
    let decls = vec![
        DeclaredDependency { name: "serde".to_string(), version_req: "^1".to_string(), path_source: None },
        DeclaredDependency {
            name: "core".to_string(),
            version_req: "*".to_string(),
            path_source: Some("/ws/core".to_string()),
        },
        DeclaredDependency { name: "serde".to_string(), version_req: "^1.2".to_string(), path_source: None },
    ];
    let k = Krate::from_manifest("/ws/app".to_string(), "app".to_string(), "0.2.0".to_string(), &decls);
    assert_eq!(k.name, "app");
    assert_eq!(k.manifest_path, Some("/ws/app/Cargo.toml".to_string()));
    assert_eq!(k.dependencies.len(), 2);
    assert_eq!(k.dependencies[0].name, "serde");
    assert_eq!(k.dependencies[0].version, "^1.2");
    assert!(matches!(k.dependencies[0].path, KrateSource::Registry));
    assert_eq!(k.dependencies[1].manifest_path, Some("/ws/core/Cargo.toml".to_string()));
    assert!(matches!(&k.dependencies[1].path, KrateSource::Path(p) if p == "/ws/core"));
}
