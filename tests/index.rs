use espim::index::{check_bounds, find_plugin, parse_index, parse_index_documents, resolve, IndexError, PluginDescriptor};
use espim::state::CommandError;
use espim::yaml::YamlNode;

fn plugin(name: &str, version: &str, url: &str) -> PluginDescriptor {
    PluginDescriptor { name: name.to_string(), version: version.to_string(), url: url.to_string() }
}

fn str_node(s: &str) -> YamlNode {
    YamlNode::Str(s.to_string())
}

fn record_node(name: &str, version: &str, url: &str) -> YamlNode {
    YamlNode::Hash(vec![
        (str_node("name"), str_node(name)),
        (str_node("version"), str_node(version)),
        (str_node("url"), str_node(url)),
    ])
}

const DEEP_SKY_INDEX: &str = "- name: Deep Sky\n  version: v1.2.0\n  url: https://example.com/deepsky.git\n- name: Aliens\n  version: master\n  url: https://example.com/aliens.git\n";

#[test]
fn parse_index_reads_every_record() {
    let index = parse_index(DEEP_SKY_INDEX).unwrap();
    assert_eq!(
        index,
        vec![
            plugin("Deep Sky", "v1.2.0", "https://example.com/deepsky.git"),
            plugin("Aliens", "master", "https://example.com/aliens.git"),
        ]
    );
}

#[test]
fn parse_index_ignores_other_keys_and_key_order() {
    let text = "- url: u\n  extra: 3\n  version: '1.0'\n  name: N\n";
    assert_eq!(parse_index(text), Ok(vec![plugin("N", "1.0", "u")]));
}

#[test]
fn parse_index_of_empty_list() {
    assert_eq!(parse_index("[]"), Ok(vec![]));
}

#[test]
fn parse_index_rejects_text_that_is_not_yaml() {
    assert_eq!(parse_index("- name: [unclosed\n"), Err(IndexError::Syntax));
}

#[test]
fn parse_index_rejects_empty_text() {
    assert_eq!(parse_index(""), Err(IndexError::NoDocument));
}

#[test]
fn parse_index_rejects_a_mapping() {
    assert_eq!(parse_index("name: Deep Sky\n"), Err(IndexError::NotAList));
}

#[test]
fn parse_index_rejects_a_record_without_url() {
    let text = "- name: A\n  version: v1\n  url: a\n- name: B\n  version: v2\n";
    assert_eq!(parse_index(text), Err(IndexError::BadRecord(1)));
}

#[test]
fn parse_index_rejects_a_version_that_is_a_number() {
    let text = "- name: A\n  version: 1.5\n  url: a\n";
    assert_eq!(parse_index(text), Err(IndexError::BadRecord(0)));
}

#[test]
fn parse_index_reports_the_first_bad_record() {
    let text = "- name: A\n- 7\n";
    assert_eq!(parse_index(text), Err(IndexError::BadRecord(0)));
}

#[test]
fn parse_index_documents_takes_the_first_document() {
    let docs = vec![
        YamlNode::Array(vec![record_node("A", "v1", "a")]),
        YamlNode::Array(vec![record_node("B", "v2", "b")]),
    ];
    assert_eq!(parse_index_documents(&docs), Ok(vec![plugin("A", "v1", "a")]));
}

#[test]
fn parse_index_documents_rejects_no_documents() {
    assert_eq!(parse_index_documents(&vec![]), Err(IndexError::NoDocument));
}

#[test]
fn parse_index_documents_rejects_a_scalar() {
    assert_eq!(parse_index_documents(&vec![YamlNode::Null]), Err(IndexError::NotAList));
}

#[test]
fn parse_index_documents_rejects_a_non_string_field() {
    let bad = YamlNode::Hash(vec![
        (str_node("name"), str_node("A")),
        (str_node("version"), YamlNode::Integer(3)),
        (str_node("url"), str_node("a")),
    ]);
    let docs = vec![YamlNode::Array(vec![record_node("Z", "v", "z"), bad])];
    assert_eq!(parse_index_documents(&docs), Err(IndexError::BadRecord(1)));
}

fn deep_sky_index() -> Vec<PluginDescriptor> {
    vec![
        plugin("Deep Sky", "v1.2.0", "https://example.com/deepsky.git"),
        plugin("Aliens", "master", "https://example.com/aliens.git"),
    ]
}

#[test]
fn resolve_exact_name() {
    assert_eq!(resolve(&deep_sky_index(), "Aliens"), Ok(1));
}

#[test]
fn resolve_without_regard_to_case() {
    assert_eq!(resolve(&deep_sky_index(), "deep sky"), Ok(0));
    assert_eq!(resolve(&deep_sky_index(), "DEEP SKY"), Ok(0));
    assert_eq!(resolve(&deep_sky_index(), "aLiEnS"), Ok(1));
}

#[test]
fn resolve_prefers_an_exact_match() {
    let index = vec![plugin("Deep Sky", "v1", "a"), plugin("deep sky", "v2", "b")];
    assert_eq!(resolve(&index, "deep sky"), Ok(1));
    assert_eq!(resolve(&index, "DEEP SKY"), Ok(0));
}

#[test]
fn resolve_unknown_name_is_not_found() {
    assert_eq!(resolve(&deep_sky_index(), "Deep Space"), Err(CommandError::NotFound));
    assert_eq!(resolve(&deep_sky_index(), ""), Err(CommandError::NotFound));
    assert_eq!(resolve(&vec![], "Deep Sky"), Err(CommandError::NotFound));
}

#[test]
fn find_plugin_uses_the_folded_names_given() {
    let index = deep_sky_index();
    let folded = vec!["deep sky".to_string(), "aliens".to_string()];
    assert_eq!(find_plugin(&index, "Aliens", &folded, "aliens"), Some(1));
    assert_eq!(find_plugin(&index, "DEEP SKY", &folded, "deep sky"), Some(0));
    assert_eq!(find_plugin(&index, "Nope", &folded, "nope"), None);
    let other = vec!["x".to_string(), "y".to_string()];
    assert_eq!(find_plugin(&index, "DEEP SKY", &other, "y"), Some(1));
}

#[test]
fn parse_index_refuses_a_long_line() {
    let text = format!("- name: {}\n  version: v\n  url: u\n", "x".repeat(1000));
    assert_eq!(parse_index(&text), Err(IndexError::LineTooLong));
}

#[test]
fn parse_index_accepts_a_line_of_the_longest_length() {
    let name = "x".repeat(1000 - "- name: ".len());
    let text = format!("- name: {}\n  version: v\n  url: u\n", name);
    assert_eq!(parse_index(&text), Ok(vec![plugin(&name, "v", "u")]));
}

#[test]
fn parse_index_refuses_deep_block_nesting() {
    let text = format!("{}x\n", "- ".repeat(100_000));
    assert_eq!(parse_index(&text), Err(IndexError::LineTooLong));
}

#[test]
fn parse_index_refuses_aliases() {
    let text = "- &a\n  name: A\n  version: v\n  url: u\n- *a\n";
    assert_eq!(parse_index(text), Err(IndexError::AliasMark));
}

#[test]
fn check_bounds_counts_bytes_per_line() {
    assert_eq!(check_bounds(""), None);
    assert_eq!(check_bounds(&"é".repeat(500)), None);
    assert_eq!(check_bounds(&"é".repeat(501)), Some(IndexError::LineTooLong));
    assert_eq!(check_bounds(&format!("{}\n{}", "a".repeat(1000), "b".repeat(1000))), None);
    assert_eq!(check_bounds(&format!("{}*", "a".repeat(1001))), Some(IndexError::LineTooLong));
    assert_eq!(check_bounds("a: '*'"), Some(IndexError::AliasMark));
}
