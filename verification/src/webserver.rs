//! Request-level policy handling for the HTTP surface: merging configured
//! defaults with request parameters under the configured limits, and turning
//! a form submission into the query pairs of a redirect.

use vstd::prelude::*;

use crate::config;
use crate::feeds;

verus! {

/// The extraction parameters a request may supply; absent fields fall back
/// to the configured defaults.
#[derive(Debug)]
pub struct ExtractionQueryOptions {
    /// The feed to patch.
    pub url: String,
    pub max_items: Option<u32>,
    pub keep_failed: Option<bool>,
    pub keep_original_content: Option<bool>,
}

/// The requested item cap as the counting type: an oversized request is
/// clamped to the largest representable value rather than rejected.
pub open spec fn spec_clamped_max(n: u32) -> usize {
    if n as int <= usize::MAX as int {
        n as usize
    } else {
        usize::MAX
    }
}

/// The effective policy: request fields win over defaults, and the result is
/// bounded by the limits.
pub open spec fn spec_effective_params(
    conf_params: config::ExtractionOpts,
    req_params: ExtractionQueryOptions,
    limits: config::ExtractionLimits,
) -> feeds::ExtractionOpts {
    let requested = (feeds::ExtractionOpts {
        max_items: match req_params.max_items {
            Some(n) => Some(spec_clamped_max(n)),
            None => conf_params.max_items,
        },
        keep_failed: match req_params.keep_failed {
            Some(b) => b,
            None => conf_params.keep_failed,
        },
        keep_original_content: match req_params.keep_original_content {
            Some(b) => b,
            None => conf_params.keep_original_content,
        },
    });
    (feeds::ExtractionOpts {
        max_items: feeds::spec_bounded_max(requested.max_items, limits.max_items),
        ..requested
    })
}

/// Merge extraction defaults from configuration with the parameters of the
/// current request, safely bounding the result by the configured limits.
pub fn determine_effective_extraction_parameters(
    conf_params: &config::ExtractionOpts,
    req_params: &ExtractionQueryOptions,
    limits: &config::ExtractionLimits,
) -> (r: feeds::ExtractionOpts)
    ensures
        r == spec_effective_params(*conf_params, *req_params, *limits),
{
    let max_items: Option<usize> = match req_params.max_items {
        Some(n) => {
            if n as u64 <= usize::MAX as u64 {
                Some(n as usize)
            } else {
                Some(usize::MAX)
            }
        },
        None => conf_params.max_items,
    };
    let requested = feeds::ExtractionOpts {
        max_items,
        keep_failed: match req_params.keep_failed {
            Some(b) => b,
            None => conf_params.keep_failed,
        },
        keep_original_content: match req_params.keep_original_content {
            Some(b) => b,
            None => conf_params.keep_original_content,
        },
    };
    requested.bound_by_limits(limits)
}

/// The effective `max_items` never exceeds the configured limit when the
/// limit is present, whatever the request supplies: a larger value, an equal
/// one, or none at all.
pub proof fn lemma_limits_respected(
    conf_params: config::ExtractionOpts,
    req_params: ExtractionQueryOptions,
    limits: config::ExtractionLimits,
)
    requires
        limits.max_items is Some,
    ensures
        spec_effective_params(conf_params, req_params, limits).max_items is Some,
        spec_effective_params(conf_params, req_params, limits).max_items->0 <= limits.max_items->0,
{
}

/// The character for one decimal digit.
pub open spec fn spec_digit_char(d: int) -> char {
    ((48 + d) as u8) as char
}

/// The decimal rendering of a non-negative number, most significant digit
/// first.
pub open spec fn spec_decimal(n: int) -> Seq<char>
    decreases n,
{
    if n < 10 {
        seq![spec_digit_char(n)]
    } else {
        spec_decimal(n / 10).push(spec_digit_char(n % 10))
    }
}

/// Render a number in decimal.
pub fn usize_to_decimal(n: usize) -> (r: String)
    ensures
        r@ == spec_decimal(n as int),
    decreases n,
{
    if n < 10 {
        let mut s = String::new();
        crate::native::push_char(&mut s, ((48 + n) as u8) as char);
        proof {
            assert(s@ =~= spec_decimal(n as int));
        }
        s
    } else {
        let mut s = usize_to_decimal(n / 10);
        crate::native::push_char(&mut s, ((48 + (n % 10)) as u8) as char);
        s
    }
}

/// A form's three-way choice for a boolean option: follow the configured
/// default, or force the option on or off.
#[derive(Debug, Clone, Copy, PartialEq, Eq, Structural)]
pub enum TriState {
    Default,
    True,
    False,
}

/// One submission of the interactive form.
#[derive(Debug)]
pub struct Input {
    pub url: String,
    pub max_items: Option<usize>,
    pub keep_failed: TriState,
    pub keep_original_content: TriState,
}

/// The query pairs one tri-state option contributes: none when left at the
/// default, else its name with `true` or `false`.
pub open spec fn spec_tri_pairs(name: Seq<char>, t: TriState) -> Seq<(Seq<char>, Seq<char>)> {
    match t {
        TriState::Default => Seq::empty(),
        TriState::True => seq![(name, "true"@)],
        TriState::False => seq![(name, "false"@)],
    }
}

/// The query pairs of the redirect for a form submission: the feed URL,
/// then the item cap in decimal when one was given, then each boolean
/// option that was not left at its default.
pub open spec fn spec_form_pairs(input: Input) -> Seq<(Seq<char>, Seq<char>)> {
    seq![("url"@, input.url@)] + (match input.max_items {
        Some(n) => seq![("max_items"@, spec_decimal(n as int))],
        None => Seq::empty(),
    }) + spec_tri_pairs("keep_failed"@, input.keep_failed) + spec_tri_pairs(
        "keep_original_content"@,
        input.keep_original_content,
    )
}

/// The names and values of a pair list.
pub open spec fn pairs_view(v: Seq<(String, String)>) -> Seq<(Seq<char>, Seq<char>)> {
    v.map_values(|p: (String, String)| (p.0@, p.1@))
}

/// Resolve a form submission into the query pairs of the redirect to the
/// API endpoint.
pub fn form_query_pairs(input: &Input) -> (r: Vec<(String, String)>)
    ensures
        pairs_view(r@) == spec_form_pairs(*input),
{
    let mut pairs: Vec<(String, String)> = Vec::new();
    pairs.push(("url".to_owned(), input.url.clone()));
    match input.max_items {
        Some(n) => pairs.push(("max_items".to_owned(), usize_to_decimal(n))),
        None => (),
    }
    match input.keep_failed {
        TriState::True => pairs.push(("keep_failed".to_owned(), "true".to_owned())),
        TriState::False => pairs.push(("keep_failed".to_owned(), "false".to_owned())),
        TriState::Default => (),
    }
    match input.keep_original_content {
        TriState::True => pairs.push(("keep_original_content".to_owned(), "true".to_owned())),
        TriState::False => pairs.push(("keep_original_content".to_owned(), "false".to_owned())),
        TriState::Default => (),
    }
    proof {
        assert(pairs_view(pairs@) =~= spec_form_pairs(*input));
    }
    pairs
}

} // verus!
