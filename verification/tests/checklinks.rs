use mdreader::checklinks::{
    anchors_from_events, build_line_starts, build_report, byte_offset_to_line, classify_url, extract_links,
    heading_to_anchor, link_targets, links_from_events, normalize_path, parse_anchors, path_before, sort_paths, validate_links, BrokenLink, CheckOpts, CheckReport, FileReport, LinkKind,
    TargetInfo, MdEvent, MdKind,
};
use std::time::Duration;

const ROOT: &str = "/work/docs";

/// Validate an in-memory tree of markdown files the way a directory scan
/// does: every file is validated against the others, reports are ordered by
/// path and counted.
fn check_files(files: &[(&str, &str)], _opts: &CheckOpts) -> CheckReport {
    let abs = |name: &str| format!("{ROOT}/{name}");
    let names = sort_paths(files.iter().map(|(n, _)| n.to_string()).collect());
    let mut reports = Vec::new();
    for name in &names {
        let content = files.iter().find(|(n, _)| n == name).unwrap().1;
        let path = abs(name);
        let targets = link_targets(&path, content);
        let infos: Vec<TargetInfo> = targets
            .iter()
            .map(|t| {
                let found = files.iter().find(|(n, _)| abs(n) == *t);
                TargetInfo {
                    path: t.clone(),
                    exists: found.is_some(),
                    anchors: found.map(|(_, c)| parse_anchors(c)).unwrap_or_default(),
                }
            })
            .collect();
        let broken = validate_links(&path, content, &infos);
        reports.push(FileReport { path: name.clone(), broken });
    }
    build_report(reports, names.len(), Duration::ZERO)
}

#[test]
fn parse_anchors_extracts_heading_slugs() {
    let content = "# Hello World\n\n## API v2.0\n\nsome text\n";
    let anchors = parse_anchors(content);
    assert!(anchors.contains(&"hello-world".to_string()), "expected 'hello-world'");
    assert!(anchors.contains(&"api-v20".to_string()), "expected 'api-v20'");
}

#[test]
fn valid_internal_anchor_passes() {
    let report = check_files(&[("doc.md", "# Title\n\n[link](#title)\n")], &CheckOpts::default());
    assert_eq!(report.broken_count, 0, "expected no broken links");
}

#[test]
fn broken_internal_anchor_reported() {
    let report = check_files(&[("doc.md", "# Title\n\n[link](#nonexistent)\n")], &CheckOpts::default());
    assert_eq!(report.broken_count, 1, "expected exactly one broken link");
    assert_eq!(report.files[0].broken[0].raw_target, "#nonexistent");
}

#[test]
fn valid_cross_file_link_passes() {
    let report = check_files(&[("a.md", "[link](./b.md)\n"), ("b.md", "# B file\n")], &CheckOpts::default());
    assert_eq!(report.broken_count, 0, "expected no broken links");
}

#[test]
fn missing_file_reported() {
    let report = check_files(&[("a.md", "[link](./nonexistent.md)\n")], &CheckOpts::default());
    assert_eq!(report.broken_count, 1, "expected exactly one broken link");
    assert_eq!(report.files[0].broken[0].raw_target, "./nonexistent.md");
}

#[test]
fn cross_file_with_valid_anchor_passes() {
    let report = check_files(
        &[("a.md", "[link](./b.md#real-section)\n"), ("b.md", "# Real Section\n\nsome content.\n")],
        &CheckOpts::default(),
    );
    assert_eq!(report.broken_count, 0, "expected no broken links");
}

#[test]
fn cross_file_with_bad_anchor_reported() {
    let report = check_files(
        &[("a.md", "[link](./b.md#fake)\n"), ("b.md", "# Real Section\n\nsome content.\n")],
        &CheckOpts::default(),
    );
    assert_eq!(report.broken_count, 1, "expected exactly one broken link");
    assert!(report.files[0].broken[0].raw_target.contains("#fake"), "raw_target should contain #fake");
}

#[test]
fn external_link_skipped_silently_when_check_external_off() {
    let report = check_files(&[("doc.md", "[link](https://example.com)\n")], &CheckOpts { check_external: false });
    assert_eq!(report.broken_count, 0, "external links must be skipped");
}

#[test]
fn normalize_path_resolves_parent_components() {
    assert_eq!(normalize_path("/tmp/docs/../other.md"), "/tmp/other.md");
}

#[test]
fn byte_offset_to_line_maps_correctly() {
    let content = "abc\ndef\n";
    let starts = build_line_starts(content);
    assert_eq!(byte_offset_to_line(0, &starts), 1);
    assert_eq!(byte_offset_to_line(3, &starts), 1);
    assert_eq!(byte_offset_to_line(4, &starts), 2);
    assert_eq!(byte_offset_to_line(7, &starts), 2);
}

#[test]
fn broken_links_carry_line_and_reason() {
    let content = "# Top\n\ntext\n[one](#top)\n[two](#gone)\n[three](./missing.md#x)\n";
    let broken = validate_links("/work/docs/doc.md", content, &vec![TargetInfo {
        path: "/work/docs/missing.md".to_string(),
        exists: false,
        anchors: Vec::new(),
    }]);
    assert_eq!(broken, vec![
        BrokenLink { line: 5, reason: "broken anchor #gone".to_string(), raw_target: "#gone".to_string() },
        BrokenLink { line: 6, reason: "missing file ./missing.md#x".to_string(), raw_target: "./missing.md#x".to_string() },
    ]);
}

#[test]
fn classify_url_kinds() {
    assert!(matches!(classify_url("#intro", "/d"), LinkKind::SameFileAnchor(a) if a == "intro"));
    assert!(matches!(classify_url("https://x.org", "/d"), LinkKind::External));
    assert!(matches!(classify_url("mailto:me@x.org", "/d"), LinkKind::Ignored));
    assert!(matches!(classify_url("./b.md", "/d"), LinkKind::CrossFile(p) if p == "/d/./b.md"));
    assert!(matches!(classify_url("b.md#s", "/d"), LinkKind::CrossFileAnchor(p, a) if p == "/d/b.md" && a == "s"));
}

#[test]
fn link_targets_are_normalized_file_links() {
    let t = link_targets("/work/docs/sub/a.md", "[x](../b.md) [y](#top) [z](c.md#s) [w](https://e.org)\n");
    assert_eq!(t, vec!["/work/docs/b.md".to_string(), "/work/docs/sub/c.md".to_string()]);
}

#[test]
fn heading_slugs() {
    assert_eq!(heading_to_anchor("Hello World"), "hello-world");
    assert_eq!(heading_to_anchor("API v2.0"), "api-v20");
    assert_eq!(heading_to_anchor("snake_case here"), "snake_case-here");
}

#[test]
fn paths_sort_by_components() {
    assert!(path_before("a/b.md", "a-b.md"));
    assert!(!path_before("a-b.md", "a/b.md"));
    assert!(path_before("a.md", "b.md"));
    assert!(!path_before("a.md", "a.md"));
    let sorted = sort_paths(vec!["z.md".to_string(), "a-b.md".to_string(), "a/b.md".to_string(), "a.md".to_string()]);
    assert_eq!(sorted, vec!["a/b.md", "a-b.md", "a.md", "z.md"]);
}

#[test]
fn report_keeps_broken_files_in_path_order() {
    let bl = |line: u32| BrokenLink { line, reason: "broken anchor #x".to_string(), raw_target: "#x".to_string() };
    let reports = vec![
        FileReport { path: "z.md".to_string(), broken: vec![bl(1), bl(2)] },
        FileReport { path: "clean.md".to_string(), broken: Vec::new() },
        FileReport { path: "a.md".to_string(), broken: vec![bl(3)] },
    ];
    let r = build_report(reports, 3, Duration::from_millis(5));
    assert_eq!(r.broken_count, 3);
    assert_eq!(r.files_scanned, 3);
    assert_eq!(r.files.iter().map(|f| f.path.as_str()).collect::<Vec<_>>(), vec!["a.md", "z.md"]);
    assert!(!r.is_clean());
}

#[test]
fn report_text_for_clean_and_broken_scans() {
    let clean = check_files(&[("doc.md", "# Title\n\n[link](#title)\n")], &CheckOpts::default());
    assert!(clean.is_clean());
    assert_eq!(clean.report_text("/work/docs", "0.01"), "Checking links in /work/docs ...\n\nAll links OK. Scanned 1 file(s) in 0.01s.\n");
    let broken = check_files(&[("doc.md", "# Title\n\n[link](#nowhere)\n")], &CheckOpts::default());
    assert_eq!(
        broken.report_text("/work/docs", "0.02"),
        "Checking links in /work/docs ...\n\ndoc.md:\n  line 3: broken anchor #nowhere  [#nowhere]\n\n1 broken link(s) across 1 file(s) (1 .md files scanned in 0.02s).\n"
    );
}

#[test]
fn ascii_heading_slugs() {
    assert_eq!(heading_to_anchor("Getting Started"), "getting-started");
    assert_eq!(heading_to_anchor("  Trim me  "), "--trim-me--");
    assert_eq!(heading_to_anchor("C++ & Rust!"), "c--rust");
    assert_eq!(heading_to_anchor("Step 1: Install"), "step-1-install");
    assert_eq!(heading_to_anchor(""), "");
}

fn ev(offset: usize, kind: MdKind) -> MdEvent {
    MdEvent { offset, kind }
}

#[test]
fn anchors_come_from_heading_events() {
    let events = vec![
        ev(0, MdKind::HeadingStart),
        ev(2, MdKind::Text("Hello ".to_string())),
        ev(8, MdKind::Code("code".to_string())),
        ev(0, MdKind::HeadingEnd),
        ev(20, MdKind::Text("body text".to_string())),
        ev(30, MdKind::HeadingEnd),
        ev(40, MdKind::HeadingStart),
        ev(42, MdKind::Other),
        ev(44, MdKind::Text("Second".to_string())),
        ev(40, MdKind::HeadingEnd),
    ];
    assert_eq!(anchors_from_events(&events), vec!["hello-code".to_string(), "second".to_string()]);
}

#[test]
fn links_come_from_link_events() {
    let starts = vec![0usize, 10, 25];
    let events = vec![
        ev(3, MdKind::LinkStart("a.md".to_string())),
        ev(4, MdKind::Text("a".to_string())),
        ev(3, MdKind::LinkEnd),
        ev(26, MdKind::LinkStart("#top".to_string())),
        ev(26, MdKind::LinkEnd),
        ev(12, MdKind::LinkEnd),
    ];
    let links = links_from_events(&events, &starts);
    let got: Vec<(String, u32)> = links.into_iter().map(|l| (l.url, l.line)).collect();
    assert_eq!(got, vec![("a.md".to_string(), 1), ("#top".to_string(), 3)]);
    let from_text: Vec<(String, u32)> =
        extract_links("intro\n\nsee [x](b.md#y)\n").into_iter().map(|l| (l.url, l.line)).collect();
    assert_eq!(from_text, vec![("b.md#y".to_string(), 3)]);
}
