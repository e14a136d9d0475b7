use iceman::cli::OutputFormat;
use iceman::commands::info::{extract_section, find_next_heading, find_topic, list_topics, normalize, render_topic, run, topics};
use iceman::commands::info_text::SCHEMAS_MD;

#[test]
fn every_topic_resolves_and_renders() {
    for t in topics() {
        let rendered = match render_topic(&t) {
            Ok(r) => r,
            Err(e) => panic!("topic {} failed: {}", t.name, e.message()),
        };
        assert!(!rendered.trim().is_empty(), "topic {} rendered empty", t.name);
        assert!(rendered.starts_with("## "), "topic {} did not start with '## ': {rendered:?}", t.name);
    }
}

#[test]
fn aliases_resolve_to_same_topic() {
    for t in topics() {
        for alias in &t.aliases {
            let resolved = find_topic(alias).unwrap_or_else(|| panic!("alias {alias} not found"));
            assert_eq!(resolved.name, t.name);
        }
    }
}

#[test]
fn lookup_is_case_and_separator_insensitive() {
    assert_eq!(find_topic("Partitions").map(|t| t.name), Some("partitions"));
    assert_eq!(find_topic("ALL_ENTRIES").map(|t| t.name), Some("entries"));
    assert_eq!(find_topic("metadata_log_entries").map(|t| t.name), Some("metadata-log"));
}

#[test]
fn unknown_topic_errors_with_list() {
    let err = run(Some("nope"), OutputFormat::Text).unwrap_err();
    let msg = err.message();
    assert!(msg.contains("unknown topic 'nope'"));
    assert!(msg.contains("partitions"));
}

#[test]
fn refs_section_extracts_to_eof_cleanly() {
    let s = extract_section(SCHEMAS_MD, "refs").unwrap();
    assert!(s.starts_with("## refs"));
    assert!(s.contains("max_reference_age_in_ms"));
    assert!(!s.ends_with("---"));
}

#[test]
fn metadata_topic_concatenates_two_sections() {
    let t = find_topic("metadata").unwrap();
    let rendered = render_topic(&t).unwrap();
    assert!(rendered.contains("## Metadata Tables"));
    assert!(rendered.contains("## Quick Reference by Task"));
}

#[test]
fn normalize_is_idempotent_on_examples() {
    for q in ["All_Entries", "metadata-log", " Refs ", "PARTITIONS"] {
        let once = normalize(q);
        assert_eq!(normalize(&once), once);
    }
}

#[test]
fn missing_section_is_none() {
    assert!(extract_section(SCHEMAS_MD, "no such heading").is_none());
}

#[test]
fn list_topics_text_names_every_topic() {
    let text = list_topics(OutputFormat::Text);
    for t in topics() {
        assert!(text.contains(t.name));
    }
    assert!(text.ends_with("usage: iceman info <topic>\n"));
}

#[test]
fn topic_json_output_is_one_object() {
    let out = run(Some("refs"), OutputFormat::Json).unwrap();
    assert!(out.starts_with("{\"topic\":\"refs\",\"content\":\"## refs"));
    assert!(out.ends_with("}\n"));
}

#[test]
fn section_on_the_first_line_is_found() {
    assert_eq!(extract_section("## a\nbody\n", "a"), Some("## a\nbody".to_string()));
    assert_eq!(extract_section("## a\nbody\n## b\nmore\n", "b"), Some("## b\nmore".to_string()));
    assert_eq!(extract_section("x## a\nbody\n", "a"), None);
}

#[test]
fn next_heading_is_a_byte_offset() {
    assert_eq!(find_next_heading("é\n## a\n"), Some(3));
    assert_eq!(find_next_heading("## a\nx\n### c\n# b\n"), Some(13));
    assert_eq!(find_next_heading("# a\nb\n"), None);
}
