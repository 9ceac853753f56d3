use docs_mcp::features::{extract_feature_requirements, select_features};


#[test]
fn test_feature_regex_correct_pattern() {
    let attr = r#"#[attr = CfgTrace([NameValue { name: "feature", value: Some("auth"), span: None }])]"#;
    let features = extract_feature_requirements(
        &vec![attr.to_string()],
        &vec!["auth".to_string()],
    );
    assert_eq!(features, vec!["auth"]);
}


#[test]
fn test_feature_regex_old_pattern_fails() {
    // The surface syntax #[cfg(feature = "...")] does not stand in this format
    let attr = r#"#[attr = CfgTrace([NameValue { name: "feature", value: Some("auth"), span: None }])]"#;
    // A pattern for the surface syntax finds no "auth" here
    let old_re = regex::Regex::new(r#"#\[cfg\(feature\s*=\s*"([^"]+)"\)\]"#).unwrap();
    let matches: Vec<&str> = old_re.captures_iter(attr)
        .filter_map(|c| c.get(1).map(|m| m.as_str()))
        .collect();
    assert!(matches.is_empty(), "Old pattern should NOT match v57 attr format");
}


#[test]
fn test_feature_cross_reference() {
    let attr = r#"#[attr = CfgTrace([NameValue { name: "feature", value: Some("undeclared"), span: None }])]"#;
    let declared = vec!["auth".to_string(), "tls".to_string()];
    let features = extract_feature_requirements(&vec![attr.to_string()], &declared);
    // "undeclared" should be filtered out
    assert!(features.is_empty());
}


#[test]
fn feature_correct_v57_pattern_extracts() {
    let attr = r#"#[attr = CfgTrace([NameValue { name: "feature", value: Some("auth"), span: None }])]"#;
    let declared = vec!["auth".to_string()];
    let features = extract_feature_requirements(&vec![attr.to_string()], &declared);
    assert_eq!(features, vec!["auth"]);
}


#[test]
fn feature_old_cfg_pattern_does_not_match_v57() {
    // The surface syntax #[cfg(feature = "...")] does not appear in these attrs
    let attr = r#"#[attr = CfgTrace([NameValue { name: "feature", value: Some("auth"), span: None }])]"#;
    let old_re = regex::Regex::new(r#"#\[cfg\(feature\s*=\s*"([^"]+)"\)\]"#).unwrap();
    let matches: Vec<_> = old_re.captures_iter(attr).collect();
    assert!(matches.is_empty(), "Old pattern should NOT match v57 attr format");
}


#[test]
fn feature_cross_reference_filters_undeclared() {
    let attr = r#"#[attr = CfgTrace([NameValue { name: "feature", value: Some("undeclared-feat"), span: None }])]"#;
    let declared = vec!["auth".to_string(), "tls".to_string()];
    let features = extract_feature_requirements(&vec![attr.to_string()], &declared);
    assert!(features.is_empty(), "Undeclared features should be filtered out");
}


#[test]
fn feature_multiple_attrs_deduped() {
    let attrs = vec![
        r#"#[attr = CfgTrace([NameValue { name: "feature", value: Some("tls"), span: None }])]"#.to_string(),
        r#"#[attr = CfgTrace([NameValue { name: "feature", value: Some("tls"), span: None }])]"#.to_string(),
        r#"#[attr = CfgTrace([NameValue { name: "feature", value: Some("http2"), span: None }])]"#.to_string(),
    ];
    let declared = vec!["tls".to_string(), "http2".to_string()];
    let features = extract_feature_requirements(&attrs, &declared);
    assert_eq!(features.len(), 2);
    assert!(features.contains(&"tls".to_string()));
    assert!(features.contains(&"http2".to_string()));
}


#[test]
fn feature_empty_declared_set_allows_all() {
    // When no declared features are provided, don't filter
    let attr = r#"#[attr = CfgTrace([NameValue { name: "feature", value: Some("anything"), span: None }])]"#;
    let declared: Vec<String> = Vec::new();
    let features = extract_feature_requirements(&vec![attr.to_string()], &declared);
    assert_eq!(features, vec!["anything"]);
}
