use recipe_validation::fetch::{BoundedFetcher, CONCURRENT_REQUESTS};
use recipe_validation::response::{EdamamResponse, Hit, SetAllHitsValidError};

fn hit(url: &str) -> Hit {
    Hit {
        recipe_url: url.to_string(),
        ..Hit::default()
    }
}

fn batch(urls: &[&str]) -> EdamamResponse {
    EdamamResponse {
        from: 1,
        to: urls.len() as i64,
        count: 100,
        links: None,
        hits: urls.iter().map(|u| hit(u)).collect(),
    }
}

fn allow_list() -> Vec<String> {
    vec!["allrecipes.com".to_string(), "seriouseats.com".to_string()]
}

fn recipe_page() -> String {
    "<script type=\"application/ld+json\">{\"@type\":\"Recipe\"}</script>".to_string()
}

fn article_page() -> String {
    "<script type=\"application/ld+json\">{\"@type\":\"Article\"}</script>".to_string()
}

fn flags(b: &EdamamResponse) -> Vec<(Option<bool>, Option<bool>)> {
    b.hits.iter().map(|h| (h.is_scrapable, h.is_valid)).collect()
}

#[test]
fn scrapable_pass_marks_every_hit() {
    let mut b = batch(&[
        "https://www.allrecipes.com/r/1",
        "not a url",
        "https://example.org/x",
        "data:text/plain,x",
    ]);
    b.set_all_hits_scrapable_status(&allow_list());
    let s: Vec<Option<bool>> = b.hits.iter().map(|h| h.is_scrapable).collect();
    assert_eq!(s, vec![Some(true), Some(false), Some(false), Some(false)]);
    assert!(b.hits.iter().all(|h| h.is_valid.is_none()));
}

#[test]
fn one_failed_fetch_marks_only_that_hit_invalid() {
    let mut b = batch(&[
        "https://www.allrecipes.com/r/1",
        "https://www.seriouseats.com/r/2",
        "https://example.org/r/3",
    ]);
    let bodies = vec![recipe_page(), String::new(), article_page()];
    assert_eq!(b.validate_batch(&allow_list(), Some(bodies)), Ok(()));
    assert_eq!(
        flags(&b),
        vec![
            (Some(true), Some(true)),
            (Some(true), Some(false)),
            (Some(false), Some(false)),
        ]
    );
}

#[test]
fn two_passes_on_fresh_batches_agree() {
    let urls = [
        "https://www.allrecipes.com/r/1",
        "bad url",
        "https://example.org/r/3",
    ];
    let bodies = vec![recipe_page(), recipe_page(), String::new()];
    let mut first = batch(&urls);
    let mut second = batch(&urls);
    assert_eq!(first.validate_batch(&allow_list(), Some(bodies.clone())), Ok(()));
    assert_eq!(second.validate_batch(&allow_list(), Some(bodies)), Ok(()));
    assert_eq!(flags(&first), flags(&second));
    assert_eq!(flags(&first)[1], (Some(false), Some(true)));
}

#[test]
fn missing_bodies_fail_the_pass() {
    let mut b = batch(&["https://www.allrecipes.com/r/1"]);
    assert_eq!(
        b.set_all_hits_valid_status(None),
        Err(SetAllHitsValidError::GetHitBodiesFailed)
    );
    assert_eq!(b.hits[0].is_valid, None);
}

#[test]
fn too_few_bodies_fail_with_set_status() {
    let mut b = batch(&["https://a.com/1", "https://b.com/2"]);
    assert_eq!(
        b.set_all_hits_valid_status(Some(vec![recipe_page()])),
        Err(SetAllHitsValidError::SetStatusFailed)
    );
    assert_eq!(b.hits[0].is_valid, Some(true));
    assert_eq!(b.hits[1].is_valid, None);
}

#[test]
fn too_many_bodies_fail_with_set_status() {
    let mut b = batch(&["https://a.com/1"]);
    assert_eq!(
        b.set_all_hits_valid_status(Some(vec![article_page(), recipe_page()])),
        Err(SetAllHitsValidError::SetStatusFailed)
    );
    assert_eq!(b.hits[0].is_valid, Some(false));
}

#[test]
fn empty_batch_validates() {
    let mut b = batch(&[]);
    assert_eq!(b.validate_batch(&allow_list(), Some(Vec::new())), Ok(()));
    assert!(b.hits.is_empty());
}

#[test]
fn hit_urls_keep_order() {
    let b = batch(&["https://a.com/1", "https://b.com/2"]);
    assert_eq!(b.hit_urls(), vec!["https://a.com/1".to_string(), "https://b.com/2".to_string()]);
}

#[test]
fn hit_setters() {
    let mut h = hit("https://a.com");
    h.set_scrapable(true);
    h.set_valid(false);
    assert_eq!(h.is_scrapable, Some(true));
    assert_eq!(h.is_valid, Some(false));
    assert_eq!(h.recipe_url, "https://a.com");
}

#[test]
fn fetcher_never_exceeds_the_limit_and_keeps_indices() {
    let n = 45usize;
    let mut f = BoundedFetcher::new(n);
    assert_eq!(f.len(), n);
    let mut in_flight: Vec<usize> = Vec::new();
    let mut max_seen = 0usize;
    loop {
        while let Some(i) = f.next_request() {
            in_flight.push(i);
        }
        max_seen = max_seen.max(in_flight.len());
        assert!(in_flight.len() <= CONCURRENT_REQUESTS);
        if in_flight.is_empty() {
            break;
        }
        // complete the most recent request first, so order differs from admission
        let i = in_flight.pop().unwrap();
        let outcome = if i % 7 == 3 { None } else { Some(format!("body {}", i)) };
        assert!(f.complete(i, outcome));
        assert!(!f.complete(i, Some("again".to_string())));
    }
    assert_eq!(max_seen, CONCURRENT_REQUESTS);
    assert!(f.is_done());
    let bodies = f.into_bodies();
    assert_eq!(bodies.len(), n);
    for (i, b) in bodies.iter().enumerate() {
        if i % 7 == 3 {
            assert_eq!(b, "");
        } else {
            assert_eq!(b, &format!("body {}", i));
        }
    }
}

#[test]
fn fetcher_hands_out_urls_in_order() {
    let mut f = BoundedFetcher::new(3);
    assert_eq!(f.next_request(), Some(0));
    assert_eq!(f.next_request(), Some(1));
    assert!(!f.complete(2, None));
    assert_eq!(f.next_request(), Some(2));
    assert_eq!(f.next_request(), None);
    assert!(!f.is_done());
}

#[test]
fn fetcher_for_no_urls_is_done() {
    let mut f = BoundedFetcher::new(0);
    assert_eq!(f.next_request(), None);
    assert!(f.is_done());
    assert!(f.into_bodies().is_empty());
}
