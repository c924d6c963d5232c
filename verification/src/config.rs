//! Configuration value types: extraction defaults, operator limits, and the
//! full-text filter settings. They are loaded once at process start by the
//! surrounding program and read-only afterwards.

use vstd::prelude::*;

verus! {

/// Settings for the custom full-text extraction rules: where they live and
/// whether they should be used at all.
#[derive(Debug)]
pub struct FullTextRSSFilterConf {
    /// Path to the custom extraction rules, if any.
    pub filter_path: Option<String>,
    /// Whether the custom rules should be applied.
    pub use_filters: bool,
}

impl FullTextRSSFilterConf {
    /// The filter path to hand to the article extractor: the configured path,
    /// but only when the filters are switched on.
    pub fn get_custom_filterpath(&self) -> (r: Option<&String>)
        ensures
            self.use_filters ==> (match r {
                Some(p) => self.filter_path == Some(*p),
                None => self.filter_path is None,
            }),
            !self.use_filters ==> r is None,
    {
        if self.use_filters {
            self.filter_path.as_ref()
        } else {
            None
        }
    }
}

/// Operator-configured extraction defaults, applied when a request does not
/// override a field.
#[derive(Debug, Clone, Copy)]
pub struct ExtractionOpts {
    pub max_items: Option<usize>,
    pub keep_failed: bool,
    pub keep_original_content: bool,
}

/// Operator-configured ceiling that request-supplied policy may never exceed.
#[derive(Debug, Clone, Copy)]
pub struct ExtractionLimits {
    pub max_items: Option<usize>,
}

impl From<ExtractionOpts> for crate::feeds::ExtractionOpts {
    fn from(c: ExtractionOpts) -> (r: crate::feeds::ExtractionOpts) {
        crate::feeds::ExtractionOpts {
            max_items: c.max_items,
            keep_failed: c.keep_failed,
            keep_original_content: c.keep_original_content,
        }
    }
}

impl vstd::std_specs::convert::FromSpecImpl<ExtractionOpts> for crate::feeds::ExtractionOpts {
    open spec fn obeys_from_spec() -> bool {
        true
    }

    open spec fn from_spec(c: ExtractionOpts) -> Self {
        crate::feeds::ExtractionOpts {
            max_items: c.max_items,
            keep_failed: c.keep_failed,
            keep_original_content: c.keep_original_content,
        }
    }
}

} // verus!
