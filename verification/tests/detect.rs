use enhanced_terminal::detect::{
    category_selected, first_version_line, is_executable, retain_found, BinaryReport,
};

#[test]
fn executable_bits() {
    assert!(is_executable(0o755));
    assert!(is_executable(0o100));
    assert!(is_executable(0o001));
    assert!(!is_executable(0o644));
    assert!(!is_executable(0));
}

#[test]
fn version_line_extraction() {
    assert_eq!(
        first_version_line("git version 2.43.0\nsecond line"),
        Some("git version 2.43.0".to_string())
    );
    assert_eq!(first_version_line("v1.0\r\nrest"), Some("v1.0".to_string()));
    assert_eq!(first_version_line("  padded  \n"), Some("padded".to_string()));
    assert_eq!(first_version_line(""), None);
    assert_eq!(first_version_line("\nv2"), None);
    assert_eq!(first_version_line("   \nx"), None);
}

#[test]
fn category_filtering_is_case_insensitive() {
    assert!(category_selected(&None, "rust_tools"));
    let filter = Some(vec!["Rust_Tools".to_string(), "vcs".to_string()]);
    assert!(category_selected(&filter, "rust_tools"));
    assert!(category_selected(&filter, "VCS"));
    assert!(!category_selected(&filter, "databases"));
    assert!(!category_selected(&Some(Vec::new()), "anything"));
}

fn report(name: &str, found: bool) -> BinaryReport {
    BinaryReport {
        name: name.to_string(),
        category: "vcs".to_string(),
        found,
        path: if found { Some(format!("/usr/bin/{}", name)) } else { None },
        version: None,
        error: None,
    }
}

#[test]
fn missing_reports_are_pruned_unless_asked_for() {
    let reports = vec![report("git", true), report("gh", false), report("hg", true)];
    let kept = retain_found(reports, false);
    let names: Vec<&str> = kept.iter().map(|r| r.name.as_str()).collect();
    assert_eq!(names, vec!["git", "hg"]);

    let reports = vec![report("git", true), report("gh", false)];
    let kept = retain_found(reports, true);
    assert_eq!(kept.len(), 2);
}

#[test]
fn reports_sort_by_category_then_name() {
    fn named(category: &str, name: &str) -> BinaryReport {
        BinaryReport {
            name: name.to_string(),
            category: category.to_string(),
            found: true,
            path: None,
            version: None,
            error: None,
        }
    }
    let input = vec![
        named("vcs", "git"),
        named("containers", "podman"),
        named("vcs", "gh"),
        named("containers", "docker"),
    ];
    let sorted = enhanced_terminal::detect::sort_reports(input);
    let keys: Vec<(String, String)> = sorted
        .iter()
        .map(|r| (r.category.clone(), r.name.clone()))
        .collect();
    assert_eq!(
        keys,
        vec![
            ("containers".to_string(), "docker".to_string()),
            ("containers".to_string(), "podman".to_string()),
            ("vcs".to_string(), "gh".to_string()),
            ("vcs".to_string(), "git".to_string()),
        ]
    );
}
