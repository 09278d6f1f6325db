use byte::skills::{
    activate, catalog, first_markdown_heading, parse_skill_file, scan_skills,
    split_frontmatter, MvpSkillRegistry, PathKind, SkillDir, SkillDirEntry, SkillError,
};

fn entry(name: &str, content: &str) -> SkillDirEntry {
    SkillDirEntry {
        kind: PathKind::Directory,
        file_kind: PathKind::File,
        file_path: format!("/skills/{}/skill.md", name),
        file: Ok(content.to_string()),
    }
}

fn dir(entries: Vec<SkillDirEntry>) -> SkillDir {
    SkillDir {
        kind: PathKind::Directory,
        entries: Ok(entries),
    }
}

#[test]
fn frontmatter_value_preserves_colons() {
    let skills = scan_skills(&vec![dir(vec![entry(
        "review",
        "---\nname: review\ndescription: Review: do this\n---\n# Code Review\n",
    )])])
    .unwrap();
    let catalog = catalog(&skills);
    assert_eq!(catalog.len(), 1);
    assert_eq!(catalog[0].name, "review");
    assert_eq!(catalog[0].description, "Review: do this");
}

#[test]
fn frontmatter_ignores_substring_delimiter_inside_value() {
    let content = "---\nname: review\ndescription: foo --- bar\n---\n# Body\n";
    let (frontmatter, body) = split_frontmatter(content);
    assert_eq!(
        frontmatter.get("description"),
        Some(&"foo --- bar".to_owned())
    );
    assert_eq!(body.trim(), "# Body");
}

#[test]
fn frontmatter_requires_opening_delimiter_on_own_line() {
    let content = "---x\nname: review\n---\n# Body\n";
    let (frontmatter, body) = split_frontmatter(content);
    assert!(frontmatter.is_empty());
    assert_eq!(body, content);
}

#[test]
fn catalog_is_sorted_by_name() {
    let skills = scan_skills(&vec![dir(vec![
        entry("zebra", "---\nname: zebra\ndescription: last\n---\n"),
        entry("alpha", "---\nname: alpha\ndescription: first\n---\n"),
    ])])
    .unwrap();
    let catalog = catalog(&skills);
    let names: Vec<_> = catalog.iter().map(|entry| entry.name.as_str()).collect();
    assert_eq!(names, vec!["alpha", "zebra"]);
}

#[test]
fn scan_prefers_workspace_skill_over_user_skill() {
    let registry = MvpSkillRegistry::with_home_dir("/home");
    assert_eq!(
        registry.skill_dirs(Some("/workspace")),
        vec![
            "/home/.agents/skills",
            "/home/.byte/skills",
            "/workspace/.agents/skills",
            "/workspace/.byte/skills",
        ]
    );
    let user = || {
        dir(vec![entry(
            "review",
            "---\nname: review\ndescription: user review\n---\n# User Review\n\nReview user code.",
        )])
    };
    let workspace = dir(vec![entry(
        "review",
        "---\nname: review\ndescription: workspace review\n---\n# Workspace Review\n\nReview workspace code.",
    )]);
    let skills = scan_skills(&vec![user(), workspace]).unwrap();
    let listed = catalog(&skills);
    assert_eq!(listed.len(), 1);
    assert_eq!(listed[0].name, "review");
    assert_eq!(listed[0].description, "workspace review");

    let definition = activate(&skills, "review").unwrap();
    assert_eq!(definition.name, "review");
    assert!(definition.content.contains("Review workspace code."));

    let alone = scan_skills(&vec![user()]).unwrap();
    let listed = catalog(&alone);
    assert_eq!(listed.len(), 1);
    assert_eq!(listed[0].description, "user review");
}

#[test]
fn description_falls_back_to_first_heading() {
    let skills = scan_skills(&vec![dir(vec![entry(
        "review",
        "---\nname: review\n---\n# Code Review Skill\n\nAlways review carefully.",
    )])])
    .unwrap();
    let catalog = catalog(&skills);
    assert_eq!(catalog.len(), 1);
    assert_eq!(catalog[0].name, "review");
    assert_eq!(catalog[0].description, "Code Review Skill");
}

#[test]
fn scan_order_allows_later_directory_to_override() {
    let skills = scan_skills(&vec![
        dir(vec![entry(
            "review",
            "---\nname: review\ndescription: agents\n---\ncontent",
        )]),
        dir(vec![entry(
            "review",
            "---\nname: review\ndescription: byte\n---\ncontent",
        )]),
    ])
    .unwrap();
    let catalog = catalog(&skills);
    assert_eq!(catalog.len(), 1);
    assert_eq!(catalog[0].description, "byte");
}

#[test]
fn activate_uses_cached_scan_results() {
    let mut registry = MvpSkillRegistry::with_home_dir("/home");
    assert!(registry.cached(Some("/workspace")).is_none());
    let skills = scan_skills(&vec![dir(vec![entry(
        "review",
        "---\nname: review\ndescription: cached\n---\nCached content.",
    )])])
    .unwrap();
    assert_eq!(
        activate(&skills, "review").unwrap().content,
        "Cached content."
    );
    registry.remember(Some("/workspace".into()), skills);

    let kept = registry.cached(Some("/workspace")).unwrap();
    assert_eq!(
        activate(&kept, "review").unwrap().content,
        "Cached content."
    );
    assert!(registry.cached(None).is_none());
}

#[test]
fn activate_returns_not_found_for_missing_skill() {
    let result = activate(&Vec::new(), "missing");
    assert!(matches!(result, Err(SkillError::NotFound(name)) if name == "missing"));
}

#[test]
fn explicit_home_dir_is_scanned() {
    let registry = MvpSkillRegistry::with_home_dir("/home");
    let places = registry.skill_dirs(None);
    assert_eq!(places, vec!["/home/.agents/skills", "/home/.byte/skills"]);
    let dirs = places
        .iter()
        .map(|place| match place.as_str() {
            "/home/.byte/skills" => dir(vec![entry(
                "review",
                "---\nname: review\ndescription: from home\n---\nHome skill.",
            )]),
            _ => SkillDir {
                kind: PathKind::Missing,
                entries: Ok(Vec::new()),
            },
        })
        .collect();
    let catalog = catalog(&scan_skills(&dirs).unwrap());
    assert_eq!(catalog.len(), 1);
    assert_eq!(catalog[0].name, "review");
    assert_eq!(catalog[0].description, "from home");
}

#[test]
fn an_empty_home_counts_as_none() {
    assert_eq!(
        MvpSkillRegistry::new(Some(String::new())).skill_dirs(None),
        Vec::<String>::new()
    );
}

#[test]
fn first_markdown_heading_extracts_text() {
    assert_eq!(
        first_markdown_heading("# Hello\n\nWorld"),
        Some("Hello".to_owned())
    );
    assert_eq!(first_markdown_heading("## Hello"), Some("Hello".to_owned()));
    assert_eq!(first_markdown_heading("no heading"), None);
}

#[test]
fn a_skill_file_needs_a_name() {
    assert!(matches!(
        parse_skill_file("/p", Ok("---\ndescription: d\n---\n".into())),
        Err(SkillError::MissingName(path)) if path == "/p"
    ));
    assert!(matches!(
        parse_skill_file("/p", Err("denied".into())),
        Err(SkillError::ReadFile(path, reason)) if path == "/p" && reason == "denied"
    ));
}

#[test]
fn a_directory_that_cannot_be_read_fails_the_scan() {
    let broken = SkillDir {
        kind: PathKind::Directory,
        entries: Err("denied".into()),
    };
    assert!(matches!(
        scan_skills(&vec![broken]),
        Err(SkillError::ReadDir(reason)) if reason == "denied"
    ));
    let missing = SkillDir {
        kind: PathKind::Missing,
        entries: Err("gone".into()),
    };
    assert_eq!(scan_skills(&vec![missing]).unwrap().len(), 0);
}

#[test]
fn a_file_without_a_closed_frontmatter_is_all_body() {
    for content in ["---", "---\n", "---\nname: a\n", "no frontmatter", ""] {
        let (frontmatter, body) = split_frontmatter(content);
        assert!(frontmatter.is_empty());
        assert_eq!(body, content);
        assert!(matches!(
            parse_skill_file("/p", Ok(content.to_owned())),
            Err(SkillError::MissingName(path)) if path == "/p"
        ));
    }
    let skills = scan_skills(&vec![dir(vec![
        entry("cut", "---"),
        entry("whole", "---\nname: whole\n---\nbody"),
    ])])
    .unwrap();
    assert_eq!(skills.len(), 1);
    assert_eq!(skills[0].name, "whole");
}
