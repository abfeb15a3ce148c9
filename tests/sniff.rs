use recipe_validation::sniff::{
    body_is_valid, check_recipe, has_recipe, is_control_char, is_recipe, is_recipe_label,
    remove_escape_control_characters, scripts_contain_recipe, RecipeJsonError,
};

fn page(json: &str) -> String {
    format!(
        "<html><head><title>t</title><script type=\"application/ld+json\">{}</script></head><body><p>hi</p></body></html>",
        json
    )
}

#[test]
fn recipe_type_is_found() {
    assert!(matches!(has_recipe(page(r#"{"@type":"Recipe"}"#)), Ok(true)));
}

#[test]
fn article_type_is_not_a_recipe() {
    assert!(matches!(has_recipe(page(r#"{"@type":"Article"}"#)), Ok(false)));
}

#[test]
fn type_array_with_recipe_matches() {
    assert!(matches!(
        has_recipe(page(r#"{"@type":["Recipe","NewsArticle"]}"#)),
        Ok(true)
    ));
}

#[test]
fn type_array_without_recipe_does_not_match() {
    assert!(matches!(has_recipe(page(r#"{"@type":["NewsArticle"]}"#)), Ok(false)));
}

#[test]
fn type_is_trimmed_and_case_folded() {
    assert!(matches!(has_recipe(page(r#"{"@type":" RECIPE "}"#)), Ok(true)));
}

#[test]
fn empty_body_is_no_recipe() {
    assert!(matches!(has_recipe(String::new()), Ok(false)));
    assert!(!body_is_valid(String::new()));
}

#[test]
fn sniffing_twice_gives_the_same_answer() {
    let body = page(r#"[{"@type":"WebSite"},{"@type":"Recipe","name":"Soup"}]"#);
    let first = has_recipe(body.clone()).unwrap();
    let second = has_recipe(body).unwrap();
    assert_eq!(first, second);
    assert!(first);
}

#[test]
fn recipe_in_nested_array_is_found() {
    assert!(matches!(
        has_recipe(page(r#"[[{"@type":"Person"}],[[{"@type":"recipe"}]]]"#)),
        Ok(true)
    ));
}

#[test]
fn recipe_under_graph_member_is_not_searched() {
    assert!(matches!(
        has_recipe(page(r#"{"@graph":[{"@type":"Recipe"}]}"#)),
        Ok(false)
    ));
}

#[test]
fn other_script_types_are_ignored() {
    let body = "<script type=\"text/javascript\">{\"@type\":\"Recipe\"}</script>".to_string();
    assert!(matches!(has_recipe(body), Ok(false)));
}

#[test]
fn raw_newline_inside_json_string_is_tolerated() {
    assert!(matches!(
        has_recipe(page("{\"@type\":\"Recipe\",\"name\":\"Pea\nSoup\"}")),
        Ok(true)
    ));
}

#[test]
fn malformed_json_fails_with_json_error() {
    assert!(matches!(
        has_recipe(page("{\"@type\": ")),
        Err(RecipeJsonError::JsonParsing(_))
    ));
    assert!(!body_is_valid(page("{\"@type\": ")));
}

#[test]
fn first_matching_block_short_circuits() {
    let body = format!(
        "{}{}",
        page(r#"{"@type":"Recipe"}"#),
        page("not json")
    );
    assert!(matches!(has_recipe(body), Ok(true)));
}

#[test]
fn malformed_block_before_recipe_fails_the_page() {
    let body = format!("{}{}", page("not json"), page(r#"{"@type":"Recipe"}"#));
    assert!(matches!(has_recipe(body), Err(RecipeJsonError::JsonParsing(_))));
}

#[test]
fn control_characters_are_removed() {
    assert_eq!(remove_escape_control_characters("a\nb\t\u{7f}c\u{85}d é"), "abcd é");
    assert_eq!(remove_escape_control_characters(""), "");
}

#[test]
fn recipe_label_is_exact() {
    assert!(is_recipe_label("recipe"));
    assert!(!is_recipe_label("Recipe"));
    assert!(!is_recipe_label(" recipe"));
    assert!(!is_recipe_label("recipes"));
}

#[test]
fn check_recipe_on_values() {
    let s: serde_json::Value = serde_json::from_str(r#"" Recipe""#).unwrap();
    assert!(check_recipe(&s));
    let a: serde_json::Value = serde_json::from_str(r#"[1, "HowTo", "recipe"]"#).unwrap();
    assert!(check_recipe(&a));
    let n: serde_json::Value = serde_json::from_str(r#"[["recipe"]]"#).unwrap();
    assert!(!check_recipe(&n));
    let o: serde_json::Value = serde_json::from_str(r#"{"@type":"Recipe"}"#).unwrap();
    assert!(!check_recipe(&o));
}

#[test]
fn is_recipe_on_values() {
    let o: serde_json::Value = serde_json::from_str(r#"{"@type":"Recipe"}"#).unwrap();
    assert!(is_recipe(&o));
    let s: serde_json::Value = serde_json::from_str(r#""Recipe""#).unwrap();
    assert!(!is_recipe(&s));
    let missing: serde_json::Value = serde_json::from_str(r#"{"type":"Recipe"}"#).unwrap();
    assert!(!is_recipe(&missing));
}

#[test]
fn scripts_are_judged_in_order() {
    let blocks = vec![
        r#"{"@type":"Article"}"#.to_string(),
        "{\"@type\":\"Recipe\",\n\"x\":1}".to_string(),
    ];
    assert!(matches!(scripts_contain_recipe(&blocks), Ok(true)));
    assert!(matches!(scripts_contain_recipe(&Vec::new()), Ok(false)));
    let bad = vec!["{".to_string()];
    assert!(scripts_contain_recipe(&bad).is_err());
}

#[test]
fn control_character_class() {
    for c in ['\0', '\n', '\r', '\t', '\u{1f}', '\u{7f}', '\u{85}', '\u{9f}'] {
        assert!(is_control_char(c));
        assert_eq!(is_control_char(c), c.is_control());
    }
    for c in [' ', 'a', '\u{a0}', '\u{20}', '\u{7e}', '\u{2028}', 'é'] {
        assert!(!is_control_char(c));
        assert_eq!(is_control_char(c), c.is_control());
    }
}
