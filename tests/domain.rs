use recipe_validation::domain::{check_if_scrapable, is_listed, parse_allow_list, CheckScrapableError};

fn list() -> Vec<String> {
    vec![
        "allrecipes.com".to_string(),
        "bbc.co.uk".to_string(),
        "seriouseats.com".to_string(),
    ]
}

#[test]
fn listed_domain_with_subdomain_is_scrapable() {
    assert!(matches!(
        check_if_scrapable("https://www.allrecipes.com/recipe/123/soup/", &list()),
        Ok(true)
    ));
}

#[test]
fn registrable_domain_respects_public_suffix() {
    assert!(matches!(
        check_if_scrapable("https://www.bbc.co.uk/food/recipes/x", &list()),
        Ok(true)
    ));
    assert!(matches!(
        check_if_scrapable("https://food.co.uk/x", &list()),
        Ok(false)
    ));
}

#[test]
fn unlisted_domain_is_not_scrapable() {
    assert!(matches!(
        check_if_scrapable("http://example.com/recipe", &list()),
        Ok(false)
    ));
}

#[test]
fn no_suffix_matching() {
    assert!(matches!(
        check_if_scrapable("https://notallrecipes.com/a", &list()),
        Ok(false)
    ));
}

#[test]
fn malformed_url_is_a_parse_error() {
    assert!(matches!(
        check_if_scrapable("not a url", &list()),
        Err(CheckScrapableError::UrlParseError(_))
    ));
    assert!(matches!(
        check_if_scrapable("/relative/path", &list()),
        Err(CheckScrapableError::UrlParseError(_))
    ));
}

#[test]
fn hostless_url_has_no_host() {
    assert!(matches!(
        check_if_scrapable("data:text/plain,Stuff", &list()),
        Err(CheckScrapableError::NoHost)
    ));
}

#[test]
fn bare_suffix_has_no_domain() {
    assert!(matches!(
        check_if_scrapable("http://com/", &list()),
        Err(CheckScrapableError::NoDomain)
    ));
}

#[test]
fn empty_allow_list_lists_nothing() {
    assert!(matches!(
        check_if_scrapable("https://www.allrecipes.com/", &[]),
        Ok(false)
    ));
}

#[test]
fn membership_is_exact() {
    assert!(is_listed("bbc.co.uk", &list()));
    assert!(!is_listed("BBC.co.uk", &list()));
    assert!(!is_listed("co.uk", &list()));
    assert!(!is_listed("", &list()));
}

#[test]
fn allow_list_is_read_one_domain_per_line() {
    assert_eq!(
        parse_allow_list("allrecipes.com\r\nbbc.co.uk\n\nfood52.com"),
        vec!["allrecipes.com", "bbc.co.uk", "", "food52.com"]
    );
    assert_eq!(parse_allow_list("a.com\n"), vec!["a.com"]);
    assert_eq!(parse_allow_list("a.com\r"), vec!["a.com\r"]);
    assert_eq!(parse_allow_list("\n"), vec![""]);
    assert!(parse_allow_list("").is_empty());
    let text = "x.org\r\ny.net\r\nz\rw.com\n";
    let std_lines: Vec<&str> = text.lines().collect();
    assert_eq!(parse_allow_list(text), std_lines);
}

#[test]
fn ip_host_has_no_domain_even_if_listed() {
    let ips = vec!["192.168.0.1".to_string(), "0.1".to_string(), "[::1]".to_string()];
    assert!(matches!(
        check_if_scrapable("http://192.168.0.1/recipe", &ips),
        Err(CheckScrapableError::NoDomain)
    ));
    assert!(matches!(
        check_if_scrapable("http://[::1]/recipe", &ips),
        Err(CheckScrapableError::NoDomain)
    ));
}

#[test]
fn unlisted_suffix_has_no_domain() {
    let l = vec!["example.notatld".to_string()];
    assert!(matches!(
        check_if_scrapable("https://www.example.notatld/r", &l),
        Err(CheckScrapableError::NoDomain)
    ));
}
