use rex_daemon::doc_manifest::{
    advisory_bundle_paths, extract_section, knowledge_entries, manifest_path, ManifestDocument,
    ManifestFile,
};
use rex_daemon::knowledge::{knowledge_metric, load_knowledge_context, KnowledgeSource};

fn doc(path: &str, status: &str, heading: Option<&str>, bundle: bool) -> ManifestDocument {
    ManifestDocument {
        path: path.to_string(),
        role: "explanation".to_string(),
        status: status.to_string(),
        summary_heading: heading.map(|h| h.to_string()),
        advisory_bundle: bundle,
    }
}

#[test]
fn extract_summary_section() {
    let body = "# Title\n\n## Summary\n\nHello world.\n\n## Next\n\nNo.";
    let section = extract_section(body, "## Summary").expect("summary");
    assert_eq!(section, "Hello world.");
}

#[test]
fn extract_section_keeps_deeper_headings_and_stops_at_same_level() {
    let body = "## Summary\r\nintro\n### Detail\nmore\n## Other\nx";
    assert_eq!(extract_section(body, " ## Summary ").as_deref(), Some("intro\n### Detail\nmore"));
    assert_eq!(extract_section(body, "## Missing"), None);
    assert_eq!(extract_section("## Empty\n\n## Next", "## Empty"), None);
}

#[test]
fn manifest_lists_bundle_and_knowledge_documents() {
    assert_eq!(manifest_path("/w"), "/w/docs/manifest.yaml");
    assert_eq!(manifest_path("/w/"), "/w/docs/manifest.yaml");
    let m = ManifestFile {
        version: 1,
        documents: vec![
            doc("docs/ROADMAP.md", "active", Some("## Summary"), true),
            doc("docs/OLD.md", "archived", Some("## Summary"), true),
            doc("docs/ARCH.md", "active", None, false),
        ],
    };
    assert_eq!(advisory_bundle_paths(Some(&m)), vec!["docs/ROADMAP.md".to_string()]);
    assert_eq!(
        advisory_bundle_paths(None),
        vec!["docs/ROADMAP.md".to_string(), "docs/PRIORITIZATION.md".to_string(), "README.md".to_string()]
    );
    assert_eq!(
        knowledge_entries(Some(&m)),
        vec![("docs/ROADMAP.md".to_string(), "## Summary".to_string())]
    );
    assert!(knowledge_entries(None).is_empty());
}

#[test]
fn knowledge_context_packs_sections_under_header() {
    let sources = vec![
        KnowledgeSource {
            rel: "docs/A.md".to_string(),
            heading: "## Summary".to_string(),
            raw: Some("## Summary\nalpha beta\n## Next".to_string()),
        },
        KnowledgeSource { rel: "docs/B.md".to_string(), heading: "## Summary".to_string(), raw: None },
    ];
    let r = load_knowledge_context(100, &sources);
    assert_eq!(r.status, "hit");
    assert_eq!(r.text, "<<KNOWLEDGE:rex-docs-v1>>\n[docs/A.md] alpha beta");
    assert_eq!(r.tokens, 6 + 7);
    assert_eq!(load_knowledge_context(0, &sources).status, "off");
    assert_eq!(load_knowledge_context(100, &Vec::new()).status, "miss");
    assert_eq!(load_knowledge_context(1, &sources).status, "miss");
    assert_eq!(knowledge_metric("hit"), "knowledge=rex-docs-v1:hit");
}
