use zeroclaw::config::{Config, SkillBundleConfig};
use zeroclaw::path::join_path;
use zeroclaw::skills::bundle::{
    default_directory, resolve_directory, validate_directory, validate_uniqueness, BundleError,
    BundleSummary,
};

fn cfg_with_bundle(alias: &str, directory: Option<&str>) -> Config {
    let mut cfg = Config::new();
    cfg.skill_bundles.insert(
        alias.to_string(),
        SkillBundleConfig {
            directory: directory.map(String::from),
        },
    );
    cfg
}

#[test]
fn unset_directory_defaults_to_shared_skills_alias() {
    let cfg = cfg_with_bundle("alpha", None);
    let root = "/tmp/install";
    let resolved = resolve_directory(&cfg, root, "alpha").unwrap();
    assert_eq!(resolved, "/tmp/install/shared/skills/alpha");
}

#[test]
fn empty_directory_string_is_treated_as_unset() {
    let cfg = cfg_with_bundle("alpha", Some("   "));
    let root = "/tmp/install";
    let resolved = resolve_directory(&cfg, root, "alpha").unwrap();
    assert_eq!(resolved, "/tmp/install/shared/skills/alpha");
}

#[test]
fn relative_directory_resolves_against_install_root() {
    let cfg = cfg_with_bundle("alpha", Some("shared/skills/custom"));
    let root = "/tmp/install";
    let resolved = resolve_directory(&cfg, root, "alpha").unwrap();
    assert_eq!(resolved, join_path(root, "shared/skills/custom"));
    assert_eq!(resolved, "/tmp/install/shared/skills/custom");
}

#[test]
fn absolute_directory_passes_through() {
    let cfg = cfg_with_bundle("alpha", Some("/abs/path"));
    let resolved = resolve_directory(&cfg, "/tmp/install", "alpha").unwrap();
    assert_eq!(resolved, "/abs/path");
}

#[test]
fn unknown_bundle_errors() {
    let cfg = Config::new();
    let err = resolve_directory(&cfg, "/tmp/install", "alpha").unwrap_err();
    assert_eq!(err.message(), "skill bundle 'alpha' is not configured");
    assert!(matches!(err, BundleError::UnknownBundle(a) if a == "alpha"));
}

#[test]
fn validate_directory_accepts_paths_inside_shared() {
    let root = "/tmp/install";
    let path = join_path(root, "shared/skills/alpha");
    validate_directory(&path, root).unwrap();
}

#[test]
fn validate_directory_rejects_paths_outside_shared() {
    let root = "/tmp/install";
    let path = "/etc/passwd";
    let err = validate_directory(path, root).unwrap_err();
    assert_eq!(
        err.message(),
        "skill-bundle directory '/etc/passwd' escapes the shared workspace at '/tmp/install/shared'; bundles must stay inside `<install>/shared/`"
    );
    assert!(matches!(err, BundleError::DirectoryEscapesShared { .. }));
}

#[test]
fn validate_directory_rejects_dotdot_escape() {
    let root = "/tmp/install";
    let path = join_path(root, "shared/../etc");
    let err = validate_directory(&path, root).unwrap_err();
    assert!(matches!(err, BundleError::DirectoryEscapesShared { .. }));
}

#[test]
fn uniqueness_passes_for_distinct_default_directories() {
    let mut cfg = Config::new();
    cfg.skill_bundles.insert("alpha".into(), SkillBundleConfig { directory: None });
    cfg.skill_bundles.insert("beta".into(), SkillBundleConfig { directory: None });
    validate_uniqueness(&cfg, "/tmp/install").unwrap();
}

#[test]
fn uniqueness_rejects_two_bundles_pointing_at_same_dir() {
    let mut cfg = Config::new();
    cfg.skill_bundles.insert(
        "alpha".into(),
        SkillBundleConfig { directory: Some("shared/skills/shared-pool".into()) },
    );
    cfg.skill_bundles.insert(
        "beta".into(),
        SkillBundleConfig { directory: Some("shared/skills/shared-pool".into()) },
    );
    let err = validate_uniqueness(&cfg, "/tmp/install").unwrap_err();
    assert_eq!(
        err.message(),
        "skill-bundle directory '/tmp/install/shared/skills/shared-pool' is already claimed by bundle 'alpha'; each bundle must own a unique directory"
    );
    assert!(matches!(err, BundleError::DirectoryCollision { .. }));
}

#[test]
fn uniqueness_sees_through_dots_and_slashes() {
    let mut cfg = Config::new();
    cfg.skill_bundles.insert("a".into(), SkillBundleConfig { directory: None });
    cfg.skill_bundles.insert(
        "b".into(),
        SkillBundleConfig { directory: Some("shared//skills/./x/../a/".into()) },
    );
    let err = validate_uniqueness(&cfg, "/opt/zc/").unwrap_err();
    assert!(
        matches!(err, BundleError::DirectoryCollision { path, other } if path == "/opt/zc/shared/skills/a" && other == "a")
    );
}

#[test]
fn uniqueness_names_the_first_that_collides() {
    let mut cfg = Config::new();
    for (alias, dir) in [("a", "x"), ("b", "y"), ("c", "./y"), ("d", "x")] {
        cfg.skill_bundles.insert(
            alias.to_string(),
            SkillBundleConfig { directory: Some(dir.to_string()) },
        );
    }
    let err = validate_uniqueness(&cfg, "/r").unwrap_err();
    assert!(
        matches!(err, BundleError::DirectoryCollision { path, other } if path == "/r/y" && other == "b")
    );
}

#[test]
fn surrounding_white_space_is_no_part_of_a_directory() {
    let cfg = cfg_with_bundle("alpha", Some("\t/abs/path \n"));
    assert_eq!(resolve_directory(&cfg, "/tmp/install", "alpha").unwrap(), "/abs/path");
    let tabs = cfg_with_bundle("alpha", Some("\t\n"));
    assert_eq!(
        resolve_directory(&tabs, "/tmp/install", "alpha").unwrap(),
        default_directory("/tmp/install", "alpha")
    );
}

#[test]
fn default_directory_is_always_accepted() {
    for root in ["/tmp/install", "/", "rel/dir", "", "../up", "/a/../b"] {
        let dir = default_directory(root, "alpha");
        assert!(validate_directory(&dir, root).is_ok(), "{root}");
    }
}

#[test]
fn shared_directory_itself_is_accepted_and_a_namesake_is_not() {
    assert!(validate_directory("/i/shared", "/i").is_ok());
    assert!(validate_directory("/i/shared/../shared/x", "/i").is_ok());
    assert!(validate_directory("/i/shared-too", "/i").is_err());
    assert!(validate_directory("i/shared/x", "/i").is_err());
}

#[test]
fn relative_directories_that_climb_are_rejected() {
    let err = validate_directory("../install/shared/x", "install").unwrap_err();
    assert!(matches!(err, BundleError::DirectoryEscapesShared { .. }));
    assert!(validate_directory("install/../../install/shared/x", "install").is_err());
    assert!(validate_directory("install/x/../shared/x", "install").is_ok());
    assert!(validate_directory("../shared/x", "..").is_ok());
    assert!(validate_directory("../../shared/x", "..").is_err());
}

#[test]
fn directories_at_different_heights_do_not_collide() {
    let mut cfg = Config::new();
    for (alias, dir) in [("a", "x"), ("b", "../x"), ("c", "../../x")] {
        cfg.skill_bundles.insert(
            alias.to_string(),
            SkillBundleConfig { directory: Some(dir.to_string()) },
        );
    }
    assert!(validate_uniqueness(&cfg, "").is_ok());
    assert!(validate_uniqueness(&cfg, "/").is_err());
}

#[test]
fn summary_holds_what_it_is_given() {
    let summary = BundleSummary {
        alias: "alpha".into(),
        directory: "/d".into(),
        included: vec!["one".into()],
        exclude: vec![],
    };
    assert_eq!(summary.alias, "alpha");
    assert_eq!(summary.directory, "/d");
    assert_eq!(summary.included, vec!["one".to_string()]);
    assert!(summary.exclude.is_empty());
}
