use zeroclaw::json::{Json, JsonNumber};
use zeroclaw::path::path_lies_in;
use zeroclaw::skills::dirs::{resolve_skill_dir, skills_root};
use zeroclaw::skills::front::{front_value, split_front_matter};
use zeroclaw::skills::list::{DirEntry, DirListing, SkillsListTool};
use zeroclaw::skills::manage::{
    ManageStep, PatchGate, PatchLookup, SkillImprovementConfig, SkillManageTool, TargetForm,
    WriteReady, WriteTarget, MAX_FILE_BYTES,
};
use zeroclaw::skills::tool::{Step, ToolError, ToolResult};
use zeroclaw::skills::view::{SkillViewTool, SupportNames};

const VALID_SKILL: &str = "---\nname: deploy\ndescription: Run a production deploy\nversion: \"0.1.0\"\n---\n\n# Deploy\nDoes a production deploy.\n";

const IMPROVED_SKILL: &str = "---\nname: deploy\ndescription: Run a production deploy (now with a pre-flight check)\nversion: \"0.1.1\"\n---\n\n# Deploy\nDoes a production deploy.\nRuns a pre-flight check first.\n";

const WORKSPACE: &str = "/ws";

fn cfg_no_cooldown() -> SkillImprovementConfig {
    SkillImprovementConfig { enabled: true, cooldown_secs: 0 }
}

fn cfg_with_cooldown(secs: u64) -> SkillImprovementConfig {
    SkillImprovementConfig { enabled: true, cooldown_secs: secs }
}

fn args(members: &[(&str, &str)]) -> Json {
    Json::Object(
        members.iter().map(|(k, v)| (k.to_string(), Json::Text(v.to_string()))).collect(),
    )
}

fn entry(name: &str, md: &str) -> DirEntry {
    DirEntry { name: name.into(), is_dir: true, skill_md: Some(md.into()) }
}

fn list(entries: Vec<DirEntry>) -> ToolResult {
    let tool = SkillsListTool::new(WORKSPACE.into());
    tool.execute(&args(&[]), &DirListing::Entries(entries))
}

fn no_names() -> SupportNames {
    SupportNames { references: vec![], templates: vec![], scripts: vec![] }
}

fn view(slug: &str, md: &str, names: SupportNames) -> ToolResult {
    let tool = SkillViewTool::new(WORKSPACE.into());
    match tool.execute(&args(&[("slug", slug)])).unwrap() {
        Step::Done(r) => r,
        Step::Next(lookup) => match lookup.read(Ok(md.to_string())) {
            Step::Done(r) => r,
            Step::Next(page) => page.render(&names),
        },
    }
}

fn manage(config: SkillImprovementConfig) -> SkillManageTool {
    SkillManageTool::new(WORKSPACE.into(), config)
}

fn patch(config: SkillImprovementConfig, content: &str) -> PatchLookup {
    patch_because(config, content, "User noted missing pre-flight check")
}

fn patch_because(config: SkillImprovementConfig, content: &str, reason: &str) -> PatchLookup {
    let step = manage(config)
        .execute(&args(&[
            ("action", "patch"),
            ("slug", "deploy"),
            ("content", content),
            ("reason", reason),
        ]))
        .unwrap();
    match step {
        ManageStep::Patch(lookup) => lookup,
        other => panic!("{other:?}"),
    }
}

fn gate(lookup: PatchLookup) -> PatchGate {
    match lookup.found(true).unwrap() {
        Step::Next(gate) => gate,
        Step::Done(r) => panic!("{r:?}"),
    }
}

fn write(path: &str, content: &str) -> Step<WriteTarget> {
    let step = manage(cfg_no_cooldown())
        .execute(&args(&[
            ("action", "write_file"),
            ("slug", "deploy"),
            ("file_path", path),
            ("content", content),
        ]))
        .unwrap();
    match step {
        ManageStep::WriteFile(lookup) => lookup.found(true).unwrap(),
        other => panic!("{other:?}"),
    }
}

// ─── skills_list ────────────────────────────────────────

#[test]
fn skills_list_empty_when_no_skills() {
    let tool = SkillsListTool::new(WORKSPACE.into());
    assert_eq!(tool.directory(), "/ws/skills");
    let result = tool.execute(&args(&[]), &DirListing::Missing);
    assert!(result.success);
    assert!(result.output.contains("0 installed"));
    assert_eq!(list(vec![]).output, "0 installed skills.");
}

#[test]
fn skills_list_enumerates_installed_skills() {
    let result = list(vec![
        entry(
            "test-runner",
            "---\nname: test-runner\ndescription: Run the test suite\nversion: \"0.2.0\"\n---\n\nBody\n",
        ),
        entry("deploy", VALID_SKILL),
    ]);
    assert!(result.success);
    assert!(result.output.contains("deploy"));
    assert!(result.output.contains("test-runner"));
    assert!(result.output.contains("0.1.0"));
    assert!(result.output.contains("0.2.0"));
    assert_eq!(
        result.output,
        "2 installed skills:\n\n- deploy v0.1.0 (deploy)\n    Run a production deploy\n- test-runner v0.2.0 (test-runner)\n    Run the test suite\n"
    );
}

#[test]
fn skills_list_skips_archive_dir() {
    let result = list(vec![entry("active", VALID_SKILL), entry(".archive", VALID_SKILL)]);
    assert!(result.success);
    assert!(result.output.contains("active"));
    assert!(!result.output.contains("archive"));
}

#[test]
fn skills_list_skips_what_is_no_skill() {
    let result = list(vec![
        DirEntry { name: "file".into(), is_dir: false, skill_md: Some(VALID_SKILL.into()) },
        DirEntry { name: "empty".into(), is_dir: true, skill_md: None },
        entry("plain", "# no front matter"),
        entry("bare", "---\nother: x\n---"),
    ]);
    assert_eq!(result.output, "1 installed skills:\n\n- bare v0.0.0 (bare)\n");
}

#[test]
fn skills_list_reports_a_directory_that_cannot_be_read() {
    let tool = SkillsListTool::new(WORKSPACE.into());
    let result = tool.execute(&args(&[]), &DirListing::Failed("denied".into()));
    assert!(!result.success);
    assert_eq!(result.error.as_deref(), Some("Failed to read skills directory: denied"));
    assert_eq!(result.output, "");
}

#[test]
fn skills_list_ignores_directory_order() {
    let a = list(vec![entry("x", VALID_SKILL), entry("b", VALID_SKILL), entry(".h", "")]);
    let b = list(vec![entry("b", VALID_SKILL), entry(".h", ""), entry("x", VALID_SKILL)]);
    assert_eq!(a.output, b.output);
    assert!(a.output.find("(b)").unwrap() < a.output.find("(x)").unwrap());
}

// ─── skill_view ─────────────────────────────────────────

#[test]
fn skill_view_rejects_path_traversal() {
    let tool = SkillViewTool::new(WORKSPACE.into());
    for bad in ["../etc/passwd", "..", "foo/bar", ".hidden", "", "a\\b", "a..b"] {
        match tool.execute(&args(&[("slug", bad)])).expect("execute should not error") {
            Step::Done(result) => {
                assert!(!result.success, "expected rejection for slug {bad:?}");
                assert_eq!(result.error.unwrap(), format!("Invalid skill slug: {bad}"));
            }
            Step::Next(_) => panic!("expected rejection for slug {bad:?}"),
        }
    }
}

#[test]
fn skill_view_returns_front_matter_and_body() {
    let result = view("deploy", VALID_SKILL, no_names());
    assert!(result.success);
    assert!(result.output.contains("name: deploy"));
    assert!(result.output.contains("Run a production deploy"));
    assert!(result.output.contains("Does a production deploy"));
    assert_eq!(
        result.output,
        "# Skill 'deploy'\n\n## Front-matter\n\n```yaml\nname: deploy\ndescription: Run a production deploy\nversion: \"0.1.0\"\n```\n\n## Body (Markdown)\n\n\n# Deploy\nDoes a production deploy.\n\n"
    );
}

#[test]
fn skill_view_lists_support_files() {
    let names = SupportNames {
        references: vec!["api.md".into()],
        templates: vec![],
        scripts: vec!["confirm.sh".into(), "apply.sh".into()],
    };
    let result = view("deploy", VALID_SKILL, names);
    assert!(result.success);
    assert!(result.output.contains("references/api.md"));
    assert!(result.output.contains("scripts/confirm.sh"));
    assert!(result.output.ends_with(
        "\n## Support files\n- references/api.md\n- scripts/apply.sh\n- scripts/confirm.sh\n"
    ));
}

#[test]
fn skill_view_needs_a_slug() {
    let tool = SkillViewTool::new(WORKSPACE.into());
    let err = tool.execute(&args(&[])).unwrap_err();
    assert_eq!(err, ToolError::MissingSlug);
    assert_eq!(err.message(), "missing `slug` argument");
    let number = Json::Object(vec![("slug".into(), Json::Number(JsonNumber::PosInt(3)))]);
    assert_eq!(tool.execute(&number).unwrap_err(), ToolError::MissingSlug);
}

#[test]
fn skill_view_reports_a_missing_skill() {
    let tool = SkillViewTool::new(WORKSPACE.into());
    let lookup = match tool.execute(&args(&[("slug", "gone")])).unwrap() {
        Step::Next(lookup) => lookup,
        Step::Done(r) => panic!("{r:?}"),
    };
    assert_eq!(lookup.skill_md, "/ws/skills/gone/SKILL.md");
    match lookup.read(Err("no such file".into())) {
        Step::Done(r) => {
            assert_eq!(r.error.as_deref(), Some("Skill 'gone' not found: no such file"))
        }
        Step::Next(_) => panic!("there is no such skill"),
    }
}

#[test]
fn skill_view_cuts_long_bodies() {
    let body = "y".repeat(2_001);
    let result = view("deploy", &body, no_names());
    let shown = format!("{}…\n[truncated; full body is 2001 bytes]", "y".repeat(2_000));
    assert!(result.output.contains(&format!("\n## Body (Markdown)\n\n{shown}\n")));
    assert!(result.output.starts_with("# Skill 'deploy'\n\n## Front-matter\n\n```yaml\n\n```\n"));
    let fits = "é".repeat(1_000);
    let result = view("deploy", &fits, no_names());
    assert!(result.output.contains(&fits));
    assert!(!result.output.contains("truncated"));
    let wide = "é".repeat(1_001);
    let result = view("deploy", &wide, no_names());
    assert!(result.output.contains("full body is 2002 bytes"));
    assert!(result.output.contains(&format!("{}…", "é".repeat(1_000))));
}

#[test]
fn skill_view_never_cuts_a_character() {
    let body = format!("a{}", "é".repeat(1_000));
    let result = view("s", &body, no_names());
    let shown = format!("\n\na{}…\n[truncated; full body is 2001 bytes]\n", "é".repeat(999));
    assert!(result.success);
    assert!(result.output.contains(&shown));
    for (lead, limit) in [(1_996, 2_000), (1_997, 1_997), (1_998, 1_998), (1_999, 1_999)] {
        let body = format!("{}😀{}", "y".repeat(lead), "z".repeat(50));
        let result = view("s", &body, no_names());
        let shown = format!("\n\n{}…\n[truncated; full body is {} bytes]\n", &body[..limit], lead + 54);
        assert!(result.output.contains(&shown), "{lead}");
    }
}

#[test]
fn skill_view_leaves_a_blank_body_out() {
    let result = view("s", "---\nname: s\n---\n \n\t\n", no_names());
    assert_eq!(result.output, "# Skill 's'\n\n## Front-matter\n\n```yaml\nname: s\n```\n");
}

// ─── skill_manage: patch ────────────────────────────────

#[test]
fn skill_manage_patch_atomically_updates_md() {
    let lookup = patch(cfg_no_cooldown(), IMPROVED_SKILL);
    assert_eq!(lookup.skill_md, "/ws/skills/deploy/SKILL.md");
    let write = match gate(lookup).gate(true) {
        Step::Next(write) => write,
        Step::Done(r) => panic!("{r:?}"),
    };
    assert_eq!(write.slug, "deploy");
    assert_eq!(write.content, IMPROVED_SKILL);
    assert_eq!(write.reason, "User noted missing pre-flight check");
    let result = write.finish(None);
    assert!(result.success, "patch failed: {:?}", result.error);
    assert_eq!(result.output, "Patched skill 'deploy'.");
}

#[test]
fn skill_manage_patch_rejects_invalid_content() {
    let lookup = patch(cfg_no_cooldown(), "just markdown, no yaml front-matter");
    let write = match gate(lookup).gate(true) {
        Step::Next(write) => write,
        Step::Done(r) => panic!("{r:?}"),
    };
    let result = write.finish(Some("no front-matter".into()));
    assert!(!result.success);
    assert_eq!(result.error.as_deref(), Some("Patch failed: no front-matter"));
}

#[test]
fn skill_manage_patch_rejects_missing_skill() {
    let step = manage(cfg_no_cooldown())
        .execute(&args(&[
            ("action", "patch"),
            ("slug", "nonexistent"),
            ("content", IMPROVED_SKILL),
            ("reason", "n/a"),
        ]))
        .unwrap();
    let lookup = match step {
        ManageStep::Patch(lookup) => lookup,
        other => panic!("{other:?}"),
    };
    match lookup.found(false).unwrap() {
        Step::Done(result) => {
            assert!(!result.success);
            assert_eq!(
                result.error.as_deref(),
                Some("Skill 'nonexistent' not found (no SKILL.md)")
            );
        }
        Step::Next(_) => panic!("there is no such skill"),
    }
}

#[test]
fn skill_manage_patch_blocks_when_skill_is_on_cooldown() {
    let lookup = patch_because(
        cfg_with_cooldown(3600),
        IMPROVED_SKILL_V2,
        "second pass within cooldown window",
    );
    let result = match gate(lookup).gate(false) {
        Step::Done(result) => result,
        Step::Next(_) => panic!("patch should have been refused"),
    };
    assert!(!result.success, "patch should have been refused");
    let err = result.error.unwrap_or_default();
    assert!(
        err.to_lowercase().contains("cooldown"),
        "error should mention cooldown; got: {err}"
    );
    assert_eq!(
        err,
        "Skill 'deploy' is on cooldown (3600s window since last update). Try a different skill, add a `references/` file, or emit 'Nothing to save.' if there is no other signal worth keeping."
    );
}

#[test]
fn skill_manage_patch_blocked_when_improvement_disabled() {
    let cfg = SkillImprovementConfig { enabled: false, cooldown_secs: 0 };
    assert!(!manage(cfg).improvement_config().enabled);
    let lookup = patch_because(cfg, IMPROVED_SKILL_V2, "should be blocked by feature flag");
    let result = match gate(lookup).gate(false) {
        Step::Done(result) => result,
        Step::Next(_) => panic!("patch should have been refused"),
    };
    assert!(!result.success);
    let err = result.error.unwrap_or_default();
    assert!(err.to_lowercase().contains("cooldown"));
}

const IMPROVED_SKILL_V2: &str = "---\nname: deploy\ndescription: Run a production deploy (v2)\nversion: \"0.1.2\"\n---\n\n# Deploy\nDoes a production deploy with a v2 tweak.\n";

#[test]
fn skill_manage_patch_proceeds_when_skill_is_stale() {
    let lookup = patch_because(
        cfg_with_cooldown(3600),
        IMPROVED_SKILL_V2,
        "stale skill, eligible for refresh",
    );
    let write = match gate(lookup).gate(true) {
        Step::Next(write) => write,
        Step::Done(r) => panic!("patch should have proceeded: {:?}", r.error),
    };
    assert!(write.content.contains("v2 tweak"));
    assert!(write.finish(None).success);
}

#[test]
fn skill_manage_patch_proceeds_when_no_updated_at() {
    let (front, _) = split_front_matter(VALID_SKILL).unwrap();
    assert_eq!(front_value(&front, "updated_at"), None);
    let result = match gate(patch(cfg_with_cooldown(3600), IMPROVED_SKILL_V2)).gate(true) {
        Step::Next(write) => write.finish(None),
        Step::Done(r) => r,
    };
    assert!(result.success, "first patch should proceed: {:?}", result.error);
}

#[test]
fn skill_manage_patch_needs_content_and_defaults_its_reason() {
    let tool = manage(cfg_no_cooldown());
    let lookup = match tool.patch("deploy", &args(&[])) {
        Step::Next(lookup) => lookup,
        Step::Done(r) => panic!("{r:?}"),
    };
    assert_eq!(lookup.reason, "Skill review");
    let err = lookup.found(true).unwrap_err();
    assert_eq!(err, ToolError::PatchWithoutContent);
    assert_eq!(err.message(), "`patch` requires `content`");
}

// ─── skill_manage: write_file ───────────────────────────

#[test]
fn skill_manage_write_file_creates_references_md() {
    let content = "# Staging quirks\n\n- env DEPLOY_TOKEN must be set\n";
    let target = match write("references/staging-quirks.md", content) {
        Step::Next(target) => target,
        Step::Done(r) => panic!("{r:?}"),
    };
    assert_eq!(target.target, "/ws/skills/deploy/references/staging-quirks.md");
    assert!(path_lies_in(&target.target, &target.skill_dir));
    let ready = match target.place(
        Some("/real/ws/skills/deploy".into()),
        Some("/real/ws/skills/deploy/references".into()),
        TargetForm::Absent,
    ) {
        Step::Next(ready) => ready,
        Step::Done(r) => panic!("{r:?}"),
    };
    assert!(ready.content.contains("DEPLOY_TOKEN"));
    let result = ready.finish();
    assert!(result.success, "{:?}", result.error);
    assert_eq!(result.output, "Wrote references/staging-quirks.md for skill 'deploy'.");
}

#[test]
fn skill_manage_write_file_rejects_bad_prefix() {
    for bad in [
        "SKILL.md",
        "../../etc/passwd",
        "secrets/key.pem",
        "references/../../etc/passwd",
        "/etc/passwd",
    ] {
        match write(bad, "nope") {
            Step::Done(result) => assert!(!result.success, "expected rejection for {bad:?}"),
            Step::Next(_) => panic!("expected rejection for {bad:?}"),
        }
    }
    match write("SKILL.md", "nope") {
        Step::Done(r) => assert_eq!(
            r.error.as_deref(),
            Some("file_path must start with one of: references/, templates/, scripts/")
        ),
        Step::Next(_) => panic!(),
    }
    for bad in ["scripts/a..b", "templates/a\0b"] {
        match write(bad, "nope") {
            Step::Done(r) => {
                assert_eq!(r.error.as_deref(), Some("file_path contains forbidden segment"))
            }
            Step::Next(_) => panic!(),
        }
    }
}

#[test]
fn skill_manage_write_file_enforces_size_cap() {
    let oversized = "x".repeat(MAX_FILE_BYTES + 1);
    match write("references/big.md", &oversized) {
        Step::Done(result) => {
            assert!(!result.success);
            assert_eq!(
                result.error.as_deref(),
                Some("content exceeds 262144 bytes (262145 given)")
            );
        }
        Step::Next(_) => panic!("too large"),
    }
    let wide = "é".repeat(MAX_FILE_BYTES / 2 + 1);
    assert!(matches!(write("references/big.md", &wide), Step::Done(_)));
    let fits = "x".repeat(MAX_FILE_BYTES);
    assert!(matches!(write("references/big.md", &fits), Step::Next(_)));
}

#[test]
fn skill_manage_write_file_ignores_cooldown() {
    let step = manage(cfg_with_cooldown(3600))
        .execute(&args(&[
            ("action", "write_file"),
            ("slug", "deploy"),
            ("file_path", "references/notes.md"),
            ("content", "# Notes\n"),
        ]))
        .unwrap();
    let lookup = match step {
        ManageStep::WriteFile(lookup) => lookup,
        other => panic!("{other:?}"),
    };
    let target = match lookup.found(true).unwrap() {
        Step::Next(target) => target,
        Step::Done(r) => panic!("{r:?}"),
    };
    let result = match target.place(None, None, TargetForm::Absent) {
        Step::Next(ready) => ready.finish(),
        Step::Done(r) => r,
    };
    assert!(result.success, "write_file should bypass the cooldown gate");
}

#[test]
fn skill_manage_write_file_needs_a_path_and_content() {
    let tool = manage(cfg_no_cooldown());
    let lookup = |a: &Json| match tool.write_file("deploy", a) {
        Step::Next(lookup) => lookup,
        Step::Done(r) => panic!("{r:?}"),
    };
    let err = lookup(&args(&[("content", "x")])).found(true).unwrap_err();
    assert_eq!(err.message(), "`write_file` requires `file_path`");
    let err = lookup(&args(&[("file_path", "references/x")])).found(true).unwrap_err();
    assert_eq!(err.message(), "`write_file` requires `content`");
    match lookup(&args(&[])).found(false).unwrap() {
        Step::Done(r) => assert_eq!(r.error.as_deref(), Some("Skill 'deploy' not found")),
        Step::Next(_) => panic!(),
    }
}

fn place(parent: &str, dir: &str, form: TargetForm) -> Step<WriteReady> {
    match write("references/x.md", "x") {
        Step::Next(target) => target.place(Some(dir.into()), Some(parent.into()), form),
        Step::Done(r) => panic!("{r:?}"),
    }
}

#[test]
fn skill_manage_write_file_refuses_links_that_lead_out() {
    let dir = "/ws/skills/deploy";
    let inside = "/ws/skills/deploy/references";
    let at = |path: &str| TargetForm::At(path.into());
    for (parent, form) in [
        ("/ws/skills/deploy-too", TargetForm::Absent),
        ("/ws/skills/deploy-too", at("/ws/skills/deploy/references/x.md")),
        (inside, at("/etc/passwd")),
        (inside, at("/ws/skills/deploy-too/x.md")),
        (inside, TargetForm::Dangling),
    ] {
        let said = format!("{parent} {form:?}");
        match place(parent, dir, form) {
            Step::Done(r) => {
                assert!(!r.success);
                assert_eq!(r.error.as_deref(), Some("file_path escapes skill directory"), "{said}")
            }
            Step::Next(_) => panic!("the file would land elsewhere: {said}"),
        }
    }
    for form in [TargetForm::Absent, at("/ws/skills/deploy/scripts/y.sh")] {
        match place(inside, dir, form) {
            Step::Next(ready) => {
                assert_eq!(ready.target, "/ws/skills/deploy/references/x.md");
                assert_eq!(ready.content, "x");
            }
            Step::Done(r) => panic!("{r:?}"),
        }
    }
}

// ─── skill_manage: archive ──────────────────────────────

#[test]
fn skill_manage_archive_moves_skill() {
    let step = manage(cfg_no_cooldown())
        .execute(&args(&[("action", "archive"), ("slug", "obsolete")]))
        .unwrap();
    let lookup = match step {
        ManageStep::Archive(lookup) => lookup,
        other => panic!("{other:?}"),
    };
    let plan = match lookup.found(true) {
        Step::Next(plan) => plan,
        Step::Done(r) => panic!("{r:?}"),
    };
    assert_eq!(plan.archive_dir, "/ws/skills/.archive");
    assert_eq!(plan.target, "/ws/skills/.archive/obsolete");
    let moved = plan.place(false, 0).unwrap();
    assert_eq!(moved.from, "/ws/skills/obsolete");
    assert_eq!(moved.to, "/ws/skills/.archive/obsolete");
    let result = moved.finish();
    assert!(result.success, "{:?}", result.error);
    assert_eq!(result.output, "Archived skill 'obsolete' to /ws/skills/.archive/obsolete");
}

#[test]
fn skill_manage_archive_does_not_clobber_existing_archive() {
    let plan = |slug: &str| match manage(cfg_no_cooldown()).archive(slug) {
        Step::Next(lookup) => match lookup.found(true) {
            Step::Next(plan) => plan,
            Step::Done(r) => panic!("{r:?}"),
        },
        Step::Done(r) => panic!("{r:?}"),
    };
    let moved = plan("obsolete").place(true, 1_431_648_000).unwrap();
    assert_eq!(moved.to, "/ws/skills/.archive/obsolete-20150515T000000Z");
    assert!(moved.finish().success);
    let moved = plan("obsolete").place(true, 253_402_300_799).unwrap();
    assert_eq!(moved.to, "/ws/skills/.archive/obsolete-99991231T235959Z");
    let moved = plan("obsolete").place(true, 253_402_300_800).unwrap();
    assert_eq!(moved.to, "/ws/skills/.archive/obsolete-+100000101T000000Z");
    let moved = plan("obsolete").place(true, -62_167_219_201).unwrap();
    assert_eq!(moved.to, "/ws/skills/.archive/obsolete--00011231T235959Z");
    assert!(plan("obsolete").place(true, i64::MAX).is_none());
    assert!(plan("obsolete").place(false, i64::MAX).is_some());
    let moved = plan("obsolete").place_with(Some("S".into()));
    assert_eq!(moved.to, "/ws/skills/.archive/obsolete-S");
}

#[test]
fn skill_manage_archive_needs_the_skill() {
    match manage(cfg_no_cooldown()).archive("obsolete") {
        Step::Next(lookup) => match lookup.found(false) {
            Step::Done(r) => assert_eq!(r.error.as_deref(), Some("Skill 'obsolete' not found")),
            Step::Next(_) => panic!(),
        },
        Step::Done(r) => panic!("{r:?}"),
    }
}

#[test]
fn skill_manage_rejects_unknown_action() {
    let step = manage(cfg_no_cooldown())
        .execute(&args(&[("action", "nuke"), ("slug", "deploy")]))
        .unwrap();
    match step {
        ManageStep::Done(result) => {
            assert!(!result.success);
            assert_eq!(
                result.error.as_deref(),
                Some("Unknown action 'nuke'. Valid: patch, write_file, archive")
            );
        }
        other => panic!("{other:?}"),
    }
}

#[test]
fn skill_manage_needs_action_and_slug() {
    let tool = manage(cfg_no_cooldown());
    let err = tool.execute(&args(&[("slug", "deploy")])).unwrap_err();
    assert_eq!(err, ToolError::MissingAction);
    assert_eq!(err.message(), "missing `action` argument");
    let err = tool.execute(&args(&[("action", "patch")])).unwrap_err();
    assert_eq!(err, ToolError::MissingSlug);
}

#[test]
fn skill_manage_rejects_bad_slugs_in_every_action() {
    let tool = manage(cfg_no_cooldown());
    for action in ["patch", "write_file", "archive"] {
        match tool.execute(&args(&[("action", action), ("slug", "../x")])).unwrap() {
            ManageStep::Done(r) => {
                assert_eq!(r.error.as_deref(), Some("Invalid skill slug: ../x"))
            }
            other => panic!("{other:?}"),
        }
    }
}

// ─── front matter, directories, schemas ─────────────────

#[test]
fn front_matter_comes_apart() {
    let (front, body) = split_front_matter("---\na: 1\n---\nbody\n---\nmore").unwrap();
    assert_eq!(front, "a: 1");
    assert_eq!(body, "body\n---\nmore");
    let (front, body) = split_front_matter("---\r\na: 1\r\n---\r\nbody\r\n").unwrap();
    assert_eq!(front, "a: 1");
    assert_eq!(body, "body\n");
    let (front, body) = split_front_matter("---\na: 1\n---").unwrap();
    assert_eq!(front, "a: 1");
    assert_eq!(body, "");
    assert!(split_front_matter("a: 1\n---\n").is_none());
    assert!(split_front_matter("---\na: 1\n").is_none());
    assert!(split_front_matter("---\n---\n").is_none());
    assert!(split_front_matter("---\n---").is_none());
    assert_eq!(split_front_matter("---\n\n---\nb").unwrap(), (String::new(), "b".to_string()));
}

#[test]
fn front_values_are_read_from_top_level_lines() {
    let front = "name: deploy\n  name: nested\nversion: \"0.1.0\"\nquote: '\"x\"'\n\ttab: no\nurl: http://x\nname: later\nempty:\nno colon";
    assert_eq!(front_value(front, "name").as_deref(), Some("deploy"));
    assert_eq!(front_value(front, "version").as_deref(), Some("0.1.0"));
    assert_eq!(front_value(front, "quote").as_deref(), Some("\"x\""));
    assert_eq!(front_value(front, "url").as_deref(), Some("http://x"));
    assert_eq!(front_value(front, "empty").as_deref(), Some(""));
    assert_eq!(front_value(front, "tab"), None);
    assert_eq!(front_value(front, "no colon"), None);
    assert_eq!(front_value(front, "missing"), None);
    assert_eq!(front_value(" key : v", "key"), None);
    assert_eq!(front_value("key : \" v \"", "key").as_deref(), Some(" v "));
}

#[test]
fn skill_directories_are_children_of_the_root() {
    assert_eq!(skills_root("/ws"), "/ws/skills");
    assert_eq!(skills_root("/ws/"), "/ws/skills");
    assert_eq!(skills_root(""), "skills");
    assert_eq!(resolve_skill_dir("/ws", "deploy").unwrap(), "/ws/skills/deploy");
    assert_eq!(resolve_skill_dir("/ws", "de.ploy").unwrap(), "/ws/skills/de.ploy");
    assert_eq!(resolve_skill_dir("/ws", ".x").unwrap_err(), "Invalid skill slug: .x");
}

#[test]
fn tools_describe_themselves() {
    let list = SkillsListTool::new(WORKSPACE.into());
    let view = SkillViewTool::new(WORKSPACE.into());
    let tool = manage(cfg_no_cooldown());
    assert_eq!(list.name(), "skills_list");
    assert_eq!(view.name(), "skill_view");
    assert_eq!(tool.name(), "skill_manage");
    assert!(list.description().starts_with("List installed skills"));
    assert!(view.description().contains("support files under references/"));
    assert!(tool.description().contains("`archive` (move to .archive/)"));
    assert!(matches!(list.parameters_schema(), Json::Object(m) if m.len() == 3));
    let schema = view.parameters_schema();
    assert!(matches!(schema.get("required"), Some(Json::Array(a)) if a.len() == 1));
    let schema = tool.parameters_schema();
    assert_eq!(schema.get_text("type").as_deref(), Some("object"));
    let properties = schema.get("properties").unwrap();
    for key in ["action", "slug", "content", "file_path", "reason"] {
        assert_eq!(properties.get(key).unwrap().get_text("type").as_deref(), Some("string"));
    }
    match properties.get("action").unwrap().get("enum") {
        Some(Json::Array(words)) => assert_eq!(words.len(), 3),
        other => panic!("{other:?}"),
    }
}
