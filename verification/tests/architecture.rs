use mdreader::mermaid::architecture::{render, ArchEdge, ArchGroup, ArchPort, ArchService, Architecture};

fn service(id: &str, icon: &str, label: &str, group: Option<&str>) -> ArchService {
    ArchService {
        id: id.to_string(),
        icon: Some(icon.to_string()),
        label: Some(label.to_string()),
        in_group: group.map(|g| g.to_string()),
    }
}

fn group(id: &str, icon: &str, label: &str) -> ArchGroup {
    ArchGroup { id: id.to_string(), icon: Some(icon.to_string()), label: Some(label.to_string()) }
}

/// `group api(cloud)[API]` with `db` and `server` inside it.
fn api_group_diagram(with_edge: bool) -> Architecture {
    let mut edges = Vec::new();
    if with_edge {
        edges.push(ArchEdge {
            source: "db".to_string(),
            source_port: Some(ArchPort::Left),
            target: "server".to_string(),
            target_port: Some(ArchPort::Right),
        });
    }
    Architecture {
        groups: vec![group("api", "cloud", "API")],
        services: vec![
            service("db", "database", "Database", Some("api")),
            service("server", "server", "Server", Some("api")),
        ],
        edges,
    }
}

#[test]
fn renders_group_with_services() {
    let arch = api_group_diagram(false);
    let out = render(&arch, None);
    assert!(out.contains("API"), "group label 'API' missing:\n{out}");
    assert!(out.contains("Database"), "service 'Database' missing:\n{out}");
    assert!(out.contains("Server"), "service 'Server' missing:\n{out}");
    assert!(out.contains('\u{250C}'), "top-left corner ┌ missing:\n{out}");
    assert!(out.contains('\u{2518}'), "bottom-right corner ┘ missing:\n{out}");
    assert!(out.contains('\u{2502}'), "vertical bar │ missing:\n{out}");
}

#[test]
fn renders_standalone_top_level_services() {
    let arch = Architecture {
        groups: Vec::new(),
        services: vec![service("ext", "internet", "External", None)],
        edges: Vec::new(),
    };
    let out = render(&arch, None);
    assert!(out.contains("External"), "top-level service label missing:\n{out}");
    assert!(out.contains('\u{250C}'), "top-left corner missing:\n{out}");
}

#[test]
fn renders_connections_summary() {
    let arch = Architecture {
        groups: Vec::new(),
        services: vec![service("db", "database", "Database", None), service("server", "server", "Server", None)],
        edges: vec![ArchEdge {
            source: "db".to_string(),
            source_port: Some(ArchPort::Left),
            target: "server".to_string(),
            target_port: Some(ArchPort::Right),
        }],
    };
    let out = render(&arch, None);
    assert!(out.contains("Connections:"), "Connections: header missing:\n{out}");
    assert!(out.contains("db:L"), "source port missing:\n{out}");
    assert!(out.contains("R:server"), "target port missing:\n{out}");
    assert!(out.contains('\u{2500}'), "dash line missing:\n{out}");
}

#[test]
fn max_width_constrains_output() {
    let arch = api_group_diagram(true);
    let out = render(&arch, Some(50));
    for line in out.lines() {
        let w = unicode_width::UnicodeWidthStr::width(line);
        assert!(w <= 60, "line width {w} greatly exceeds budget: {line:?}");
    }
}

#[test]
fn architecture_empty_diagram_renders_without_panic() {
    let arch = Architecture::default();
    let out = render(&arch, None);
    assert!(!out.contains('\u{250C}'), "no box for empty diagram");
}

#[test]
fn empty_architecture_renders_nothing() {
    assert_eq!(render(&Architecture::default(), None), "");
}

#[test]
fn display_label_falls_back_to_id() {
    let s = ArchService { id: "web".to_string(), icon: None, label: None, in_group: None };
    assert_eq!(s.display_label(), "web");
    let t = service("db", "database", "Database", None);
    assert_eq!(t.display_label(), "Database");
}

#[test]
fn port_abbreviations() {
    assert_eq!(ArchPort::Left.abbreviation(), 'L');
    assert_eq!(ArchPort::Right.abbreviation(), 'R');
    assert_eq!(ArchPort::Top.abbreviation(), 'T');
    assert_eq!(ArchPort::Bottom.abbreviation(), 'B');
}

#[test]
fn connections_follow_one_blank_line() {
    let arch = Architecture {
        groups: Vec::new(),
        services: vec![service("db", "database", "Database", None), service("server", "server", "Server", None)],
        edges: vec![ArchEdge {
            source: "db".to_string(),
            source_port: Some(ArchPort::Left),
            target: "server".to_string(),
            target_port: Some(ArchPort::Right),
        }],
    };
    assert_eq!(
        render(&arch, None),
        "┌────────────┐  ┌────────────┐\n│  Database  │  │   Server   │\n└────────────┘  └────────────┘\n\nConnections:\n  db:L ─── R:server"
    );
}

#[test]
fn long_group_title_is_truncated_to_the_budget() {
    let arch = Architecture {
        groups: vec![group("g", "cloud", "Very Long Group Title")],
        services: Vec::new(),
        edges: Vec::new(),
    };
    let out = render(&arch, Some(20));
    let top = out.lines().next().unwrap();
    assert!(top.contains('\u{2026}'), "title not truncated:\n{out}");
    for line in out.lines() {
        assert!(unicode_width::UnicodeWidthStr::width(line) <= 20, "line over budget: {line:?}");
    }
}

#[test]
fn group_box_lines_fit_the_budget() {
    let arch = Architecture {
        groups: vec![group("api", "cloud", "A Rather Long Group Title For The Box")],
        services: vec![
            service("db", "database", "Primary Database", Some("api")),
            service("server", "server", "Server", Some("api")),
            service("cache", "disk", "Cache", Some("api")),
        ],
        edges: Vec::new(),
    };
    for budget in [6usize, 12, 30, 45, 120] {
        let out = render(&arch, Some(budget));
        for line in out.lines() {
            assert!(line.chars().count() <= budget, "line longer than {budget}: {line:?}");
        }
    }
}

#[test]
fn whole_diagram_fits_a_roomy_budget() {
    let arch = Architecture {
        groups: vec![group("api", "cloud", "Application Programming Interface"), group("data", "disk", "Data")],
        services: vec![
            service("gateway", "internet", "Public Gateway Service", None),
            service("cdn", "internet", "CDN", None),
            service("db", "database", "Primary Database", Some("data")),
            service("server", "server", "Server", Some("api")),
        ],
        edges: Vec::new(),
    };
    for budget in [12usize, 20, 33, 80] {
        let out = render(&arch, Some(budget));
        for line in out.lines() {
            assert!(line.chars().count() <= budget, "line longer than {budget}: {line:?}");
        }
    }
}
