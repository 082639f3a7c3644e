use ppoker::changelog::{parse_changelog, split_lines, Version};

#[test]
fn changelog_test_parse_empty_changelog() {
    let current = Version::parse("1.0.0").unwrap();
    let target = Version::parse("2.0.0").unwrap();
    assert!(parse_changelog("", &current, &target).is_empty());
}

#[test]
fn changelog_test_parse_version_in_range() {
    let content = r#"## [1.2.0]
Some changes here
More changes
"#;
    let current = Version::parse("1.1.0").unwrap();
    let target = Version::parse("1.2.0").unwrap();
    let sections = parse_changelog(content, &current, &target);
    assert_eq!(sections.len(), 1);
    assert_eq!(sections[0].version, Version::parse("1.2.0").unwrap());
    assert_eq!(sections[0].content, "## [1.2.0]\nSome changes here\nMore changes\n");
}

#[test]
fn changelog_test_parse_multiple_versions_filtering() {
    let content = r#"## [1.3.0]
Version 1.3.0 changes
## [1.2.0]
Version 1.2.0 changes
## [1.1.0]
Version 1.1.0 changes
## [1.0.0]
Version 1.0.0 changes
"#;
    let current = Version::parse("1.1.0").unwrap();
    let target = Version::parse("1.2.0").unwrap();
    let sections = parse_changelog(content, &current, &target);
    assert_eq!(sections.len(), 1);
    assert_eq!(sections[0].version, Version::parse("1.2.0").unwrap());
}

#[test]
fn changelog_test_ignore_versions_outside_range() {
    let content = r#"## [2.0.0]
Future version
## [1.2.0]
Current target
## [1.0.0]
Old version
"#;
    let current = Version::parse("1.1.0").unwrap();
    let target = Version::parse("1.2.0").unwrap();
    let sections = parse_changelog(content, &current, &target);
    assert_eq!(sections.len(), 1);
    assert_eq!(sections[0].version, Version::parse("1.2.0").unwrap());
}

#[test]
fn changelog_test_preserve_section_formatting() {
    let content = r#"## [1.2.0]
### Features
- Feature 1
- Feature 2

### Bug Fixes
- Fix 1
"#;
    let current = Version::parse("1.1.0").unwrap();
    let target = Version::parse("1.2.0").unwrap();
    let sections = parse_changelog(content, &current, &target);
    assert_eq!(sections[0].content, content);
}

#[test]
fn test_version_filtering() {
    let sample_changelog = r#"## [0.5.0]
Version 0.5.0 changes
## [0.4.0]
Version 0.4.0 changes
## [0.3.0]
Version 0.3.0 changes
"#;
    let filtered_sections = parse_changelog(
        sample_changelog,
        &Version::parse("0.4.0").unwrap(),
        &Version::parse("999.999.999").unwrap(),
    );
    assert_eq!(filtered_sections.len(), 1);
    assert_eq!(filtered_sections[0].version, Version::parse("0.5.0").unwrap());

    let all_sections = parse_changelog(
        sample_changelog,
        &Version::parse("0.0.0").unwrap(),
        &Version::parse("999.999.999").unwrap(),
    );
    assert_eq!(all_sections.len(), 3);
}

#[test]
fn empty_range_gives_nothing() {
    let content = "## [1.0.0]\nA\n## [2.0.0]\nB\n";
    let v1 = Version::new(1, 0, 0);
    let v2 = Version::new(2, 0, 0);
    assert!(parse_changelog(content, &v2, &v1).is_empty());
    assert!(parse_changelog(content, &v1, &v1).is_empty());
    assert_eq!(parse_changelog(content, &v1, &v2).len(), 1);
}

#[test]
fn range_keeps_only_middle_section() {
    let content = "## [1.3.0]\nc\n## [1.2.0]\nb\n## [1.1.0]\na\n## [1.0.0]\nz\n";
    let sections = parse_changelog(content, &Version::new(1, 1, 0), &Version::new(1, 2, 0));
    assert_eq!(sections.len(), 1);
    assert_eq!(sections[0].version, Version::new(1, 2, 0));
    assert_eq!(sections[0].content, "## [1.2.0]\nb\n");
}

#[test]
fn malformed_heading_version_drops_section() {
    let content = "intro text\n## [1.2]\nbad\n##  [01.2.0]\nleading zero\n## [1.5.0] - 2024-01-01\nok\r\nend";
    let sections = parse_changelog(content, &Version::new(1, 0, 0), &Version::new(2, 0, 0));
    assert_eq!(sections.len(), 1);
    assert_eq!(sections[0].version, Version::new(1, 5, 0));
    assert_eq!(sections[0].content, "## [1.5.0] - 2024-01-01\nok\nend\n");
}

#[test]
fn version_parsing() {
    assert_eq!(Version::parse("1.2.3"), Some(Version::new(1, 2, 3)));
    assert_eq!(Version::parse("0.0.0"), Some(Version::new(0, 0, 0)));
    assert_eq!(Version::parse("1.2"), None);
    assert_eq!(Version::parse("1.2.3.4"), None);
    assert_eq!(Version::parse("01.2.3"), None);
    assert_eq!(Version::parse("1.2.3-alpha"), None);
    assert_eq!(Version::parse(""), None);
    assert_eq!(Version::parse("18446744073709551615.0.0"), Some(Version::new(u64::MAX, 0, 0)));
    assert_eq!(Version::parse("18446744073709551616.0.0"), None);
}

#[test]
fn lines_follow_str_lines() {
    for text in ["", "a", "a\n", "a\r\nb", "\n\n", "x\r", "a\n\r\n", "é\n☕"] {
        let expected: Vec<String> = text.lines().map(|l| l.to_string()).collect();
        assert_eq!(split_lines(text), expected, "{:?}", text);
    }
}
