use makefulltextfeed::webserver::{form_query_pairs, usize_to_decimal, Input, TriState};

fn input(
    max_items: Option<usize>,
    keep_failed: TriState,
    keep_original_content: TriState,
) -> Input {
    Input {
        url: "http://example.org/feed".to_string(),
        max_items,
        keep_failed,
        keep_original_content,
    }
}

#[test]
fn decimal_rendering() {
    assert_eq!(usize_to_decimal(0), "0");
    assert_eq!(usize_to_decimal(7), "7");
    assert_eq!(usize_to_decimal(10), "10");
    assert_eq!(usize_to_decimal(12345), "12345");
    assert_eq!(usize_to_decimal(usize::MAX as usize), usize::MAX.to_string());
}

#[test]
fn all_defaults_give_only_the_url() {
    let pairs = form_query_pairs(&input(None, TriState::Default, TriState::Default));
    assert_eq!(pairs, vec![("url".to_string(), "http://example.org/feed".to_string())]);
}

#[test]
fn max_items_is_rendered_in_decimal() {
    let pairs = form_query_pairs(&input(Some(3), TriState::Default, TriState::Default));
    assert_eq!(
        pairs,
        vec![
            ("url".to_string(), "http://example.org/feed".to_string()),
            ("max_items".to_string(), "3".to_string()),
        ]
    );
}

#[test]
fn forced_booleans_become_pairs() {
    let pairs = form_query_pairs(&input(Some(12), TriState::True, TriState::False));
    assert_eq!(
        pairs,
        vec![
            ("url".to_string(), "http://example.org/feed".to_string()),
            ("max_items".to_string(), "12".to_string()),
            ("keep_failed".to_string(), "true".to_string()),
            ("keep_original_content".to_string(), "false".to_string()),
        ]
    );
}

#[test]
fn false_and_true_render_separately() {
    let pairs = form_query_pairs(&input(None, TriState::False, TriState::True));
    assert_eq!(
        pairs,
        vec![
            ("url".to_string(), "http://example.org/feed".to_string()),
            ("keep_failed".to_string(), "false".to_string()),
            ("keep_original_content".to_string(), "true".to_string()),
        ]
    );
}
