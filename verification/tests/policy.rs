use makefulltextfeed::config;
use makefulltextfeed::feeds::ExtractionOpts;
use makefulltextfeed::webserver::{
    determine_effective_extraction_parameters, ExtractionQueryOptions,
};

fn defaults(max_items: Option<usize>) -> config::ExtractionOpts {
    config::ExtractionOpts { max_items, keep_failed: true, keep_original_content: false }
}

fn request(
    max_items: Option<u32>,
    keep_failed: Option<bool>,
    keep_original_content: Option<bool>,
) -> ExtractionQueryOptions {
    ExtractionQueryOptions {
        url: "http://example.org/feed".to_string(),
        max_items,
        keep_failed,
        keep_original_content,
    }
}

#[test]
fn bound_by_limits_smaller_request_wins() {
    let opts = ExtractionOpts { max_items: Some(3), keep_failed: false, keep_original_content: true };
    let r = opts.bound_by_limits(&config::ExtractionLimits { max_items: Some(10) });
    assert_eq!(r.max_items, Some(3));
    assert_eq!(r.keep_failed, false);
    assert_eq!(r.keep_original_content, true);
}

#[test]
fn bound_by_limits_smaller_limit_wins() {
    let opts = ExtractionOpts { max_items: Some(10), keep_failed: true, keep_original_content: false };
    let r = opts.bound_by_limits(&config::ExtractionLimits { max_items: Some(4) });
    assert_eq!(r.max_items, Some(4));
}

#[test]
fn bound_by_limits_absent_request_takes_limit() {
    let opts = ExtractionOpts { max_items: None, keep_failed: true, keep_original_content: false };
    let r = opts.bound_by_limits(&config::ExtractionLimits { max_items: Some(7) });
    assert_eq!(r.max_items, Some(7));
}

#[test]
fn bound_by_limits_no_limit_keeps_request() {
    let opts = ExtractionOpts { max_items: Some(9), keep_failed: true, keep_original_content: false };
    let r = opts.bound_by_limits(&config::ExtractionLimits { max_items: None });
    assert_eq!(r.max_items, Some(9));
    let opts = ExtractionOpts { max_items: None, keep_failed: true, keep_original_content: false };
    let r = opts.bound_by_limits(&config::ExtractionLimits { max_items: None });
    assert_eq!(r.max_items, None);
}

#[test]
fn effective_request_larger_than_limit_is_capped() {
    let limits = config::ExtractionLimits { max_items: Some(5) };
    let r = determine_effective_extraction_parameters(
        &defaults(None),
        &request(Some(10), None, None),
        &limits,
    );
    assert_eq!(r.max_items, Some(5));
}

#[test]
fn effective_request_equal_to_limit() {
    let limits = config::ExtractionLimits { max_items: Some(5) };
    let r = determine_effective_extraction_parameters(
        &defaults(None),
        &request(Some(5), None, None),
        &limits,
    );
    assert_eq!(r.max_items, Some(5));
}

#[test]
fn effective_absent_request_bounded_by_limit() {
    let limits = config::ExtractionLimits { max_items: Some(5) };
    let r = determine_effective_extraction_parameters(
        &defaults(None),
        &request(None, None, None),
        &limits,
    );
    assert_eq!(r.max_items, Some(5));
}

#[test]
fn effective_overrides_win_over_defaults() {
    let limits = config::ExtractionLimits { max_items: None };
    let r = determine_effective_extraction_parameters(
        &defaults(Some(3)),
        &request(Some(8), Some(false), Some(true)),
        &limits,
    );
    assert_eq!(r.max_items, Some(8));
    assert_eq!(r.keep_failed, false);
    assert_eq!(r.keep_original_content, true);
}

#[test]
fn effective_defaults_apply_when_request_is_silent() {
    let limits = config::ExtractionLimits { max_items: None };
    let r = determine_effective_extraction_parameters(
        &defaults(Some(3)),
        &request(None, None, None),
        &limits,
    );
    assert_eq!(r.max_items, Some(3));
    assert_eq!(r.keep_failed, true);
    assert_eq!(r.keep_original_content, false);
}

#[test]
fn config_opts_convert_to_engine_opts() {
    let c = config::ExtractionOpts { max_items: Some(2), keep_failed: false, keep_original_content: true };
    let e: ExtractionOpts = ExtractionOpts::from(c);
    assert_eq!(e.max_items, Some(2));
    assert_eq!(e.keep_failed, false);
    assert_eq!(e.keep_original_content, true);
}

#[test]
fn custom_filterpath_only_when_filters_enabled() {
    let on = config::FullTextRSSFilterConf {
        filter_path: Some("/etc/filters".to_string()),
        use_filters: true,
    };
    assert_eq!(on.get_custom_filterpath(), Some(&"/etc/filters".to_string()));
    let off = config::FullTextRSSFilterConf {
        filter_path: Some("/etc/filters".to_string()),
        use_filters: false,
    };
    assert_eq!(off.get_custom_filterpath(), None);
    let none = config::FullTextRSSFilterConf { filter_path: None, use_filters: true };
    assert_eq!(none.get_custom_filterpath(), None);
}
