//! The patch orchestrator: which items are eligible, what becomes of each
//! one, and the ordered reassembly of the item collection. The extraction
//! capability itself is outside work; its per-item outcomes are handed in as
//! plain values, and the rewriting is specified for every possible outcome.

use vstd::prelude::*;
use vstd::string::StringExecFns;

use crate::feeds::{
    EntryModel, ExtractionOpts, FeedDocument, FeedEntry, ItemError, NativeFeed, NativeItem,
    opt_view, same_native_kind,
};

verus! {

/// What the extraction capability returned for one item's candidate URL.
#[derive(Debug)]
pub enum ItemOutcome {
    /// Extraction succeeded and yielded this article body.
    Success(String),
    /// Extraction failed; the reason is opaque to the engine.
    Failure,
}

/// How many leading items are eligible for rewriting: the configured cap,
/// bounded by the item count; no cap means every item is eligible.
pub open spec fn spec_eligible_count(max_items: Option<usize>, len: int) -> int {
    match max_items {
        Some(m) => if m as int <= len { m as int } else { len },
        None => len,
    }
}

/// How many leading items are eligible for rewriting.
pub fn eligible_count(max_items: &Option<usize>, len: usize) -> (n: usize)
    ensures
        n as int == spec_eligible_count(*max_items, len as int),
        n <= len,
{
    match max_items {
        Some(m) => if *m <= len { *m } else { len },
        None => len,
    }
}

/// Why an eligible item counts as failed, if it does: no candidate URL, or
/// a candidate URL whose extraction did not succeed.
pub open spec fn spec_item_error(url: Option<Seq<char>>, outcome: Option<ItemOutcome>) -> Option<
    ItemError,
> {
    match url {
        None => Some(ItemError::NoCandidateUrl),
        Some(_) => match outcome {
            Some(ItemOutcome::Success(_)) => None,
            _ => Some(ItemError::ExtractionFailed),
        },
    }
}

/// The text a successful outcome carries.
pub open spec fn spec_outcome_text(outcome: Option<ItemOutcome>) -> Seq<char> {
    match outcome {
        Some(ItemOutcome::Success(t)) => t@,
        _ => Seq::empty(),
    }
}

/// The rewritten body: the extracted text alone, or the original body (empty
/// when absent) immediately followed by the extracted text when the original
/// content is kept.
pub open spec fn spec_new_body(
    original: Option<Seq<char>>,
    extracted: Seq<char>,
    keep_original: bool,
) -> Seq<char> {
    if keep_original {
        (match original {
            Some(b) => b,
            None => Seq::empty(),
        }) + extracted
    } else {
        extracted
    }
}

/// What becomes of one item.
pub enum Disposition {
    /// The item is kept with this new body.
    Rewritten(Seq<char>),
    /// The item is kept unchanged.
    KeptOriginal,
    /// The item is dropped from the output.
    Dropped,
}

/// What becomes of one eligible item: rewritten on success, and on failure
/// kept unchanged or dropped as `keep_failed` directs.
pub open spec fn spec_disposition(
    e: EntryModel,
    outcome: Option<ItemOutcome>,
    opts: ExtractionOpts,
) -> Disposition {
    match spec_item_error(e.url, outcome) {
        None => Disposition::Rewritten(
            spec_new_body(e.body, spec_outcome_text(outcome), opts.keep_original_content),
        ),
        Some(_) => if opts.keep_failed {
            Disposition::KeptOriginal
        } else {
            Disposition::Dropped
        },
    }
}

/// The engine's view of a whole item collection.
pub open spec fn spec_models(entries: Seq<FeedEntry>) -> Seq<EntryModel> {
    entries.map_values(|e: FeedEntry| e.model())
}

/// What becomes of the item at index `k`: eligible items go by their
/// disposition; items beyond the eligible prefix are kept unchanged.
pub open spec fn spec_slot(
    models: Seq<EntryModel>,
    outcomes: Seq<Option<ItemOutcome>>,
    opts: ExtractionOpts,
    k: int,
) -> Disposition {
    if k < spec_eligible_count(opts.max_items, models.len() as int) {
        spec_disposition(models[k], outcomes[k], opts)
    } else {
        Disposition::KeptOriginal
    }
}

/// The input indices, in order, of the items that survive among the first
/// `k`.
pub open spec fn spec_survivors_upto(
    models: Seq<EntryModel>,
    outcomes: Seq<Option<ItemOutcome>>,
    opts: ExtractionOpts,
    k: int,
) -> Seq<int>
    decreases k,
{
    if k <= 0 {
        Seq::empty()
    } else {
        let pre = spec_survivors_upto(models, outcomes, opts, k - 1);
        if spec_slot(models, outcomes, opts, k - 1) is Dropped {
            pre
        } else {
            pre.push(k - 1)
        }
    }
}

/// The input indices, in order, of all surviving items.
pub open spec fn spec_survivors(
    models: Seq<EntryModel>,
    outcomes: Seq<Option<ItemOutcome>>,
    opts: ExtractionOpts,
) -> Seq<int> {
    spec_survivors_upto(models, outcomes, opts, models.len() as int)
}

/// An output entry that is a correct rewrite of `orig` with new body `b`:
/// same candidate URL, the new body, and an item of the same family.
pub open spec fn spec_rewrite_ok(orig: FeedEntry, b: Seq<char>, out_e: FeedEntry) -> bool {
    &&& out_e.model() == (EntryModel { url: orig.model().url, body: Some(b) })
    &&& same_native_kind(out_e.native, orig.native)
}

/// The output entry at a surviving slot is what the slot's disposition
/// demands of the input entry at index `k`.
pub open spec fn slot_output_ok(
    orig: Seq<FeedEntry>,
    outcomes: Seq<Option<ItemOutcome>>,
    opts: ExtractionOpts,
    k: int,
    out_e: FeedEntry,
) -> bool {
    match spec_slot(spec_models(orig), outcomes, opts, k) {
        Disposition::Rewritten(b) => spec_rewrite_ok(orig[k], b, out_e),
        Disposition::KeptOriginal => out_e == orig[k],
        Disposition::Dropped => false,
    }
}

/// The full contract of the rewriting pass: the output holds exactly the
/// surviving items, in input order, each rewritten or kept as its
/// disposition demands.
pub open spec fn spec_patched(
    orig: Seq<FeedEntry>,
    outcomes: Seq<Option<ItemOutcome>>,
    opts: ExtractionOpts,
    out: Seq<FeedEntry>,
) -> bool {
    let ks = spec_survivors(spec_models(orig), outcomes, opts);
    &&& out.len() == ks.len()
    &&& forall|j: int|
        0 <= j < ks.len() ==> 0 <= ks[j] < orig.len() && slot_output_ok(
            orig,
            outcomes,
            opts,
            ks[j],
            #[trigger] out[j],
        )
}

/// Rebuild one successfully extracted entry with its new body written both
/// into the engine's view and into the native item.
fn rewrite_entry(e: FeedEntry, text: &String, keep_original: bool) -> (r: FeedEntry)
    ensures
        spec_rewrite_ok(e, spec_new_body(e.model().body, text@, keep_original), r),
{
    let FeedEntry { url, body, native } = e;
    let new_body: String = if keep_original {
        let mut base: String = match &body {
            Some(b) => b.clone(),
            None => String::new(),
        };
        base.append(text.as_str());
        base
    } else {
        text.clone()
    };
    let native = match native {
        NativeItem::Rss(item) => NativeItem::Rss(
            crate::native::rss_item_with_content(item, new_body.clone()),
        ),
        NativeItem::Atom(entry) => NativeItem::Atom(
            crate::native::atom_entry_with_body(entry, new_body.clone()),
        ),
    };
    FeedEntry { url, body: Some(new_body), native }
}

/// Among the first `k` items, at most `k` survive.
pub proof fn lemma_survivors_upto_len(
    models: Seq<EntryModel>,
    outcomes: Seq<Option<ItemOutcome>>,
    opts: ExtractionOpts,
    k: int,
)
    requires
        0 <= k,
    ensures
        spec_survivors_upto(models, outcomes, opts, k).len() <= k,
    decreases k,
{
    if k > 0 {
        lemma_survivors_upto_len(models, outcomes, opts, k - 1);
    }
}

/// Every surviving index among the first `k` items lies below `k`, and the
/// survivor list is strictly increasing: input order is preserved.
pub proof fn lemma_survivors_upto_sorted(
    models: Seq<EntryModel>,
    outcomes: Seq<Option<ItemOutcome>>,
    opts: ExtractionOpts,
    k: int,
)
    ensures
        forall|j: int|
            0 <= j < spec_survivors_upto(models, outcomes, opts, k).len() ==> 0 <= #[trigger] spec_survivors_upto(
                models,
                outcomes,
                opts,
                k,
            )[j] < k,
        forall|j1: int, j2: int|
            0 <= j1 < j2 < spec_survivors_upto(models, outcomes, opts, k).len()
                ==> #[trigger] spec_survivors_upto(models, outcomes, opts, k)[j1]
                < #[trigger] spec_survivors_upto(models, outcomes, opts, k)[j2],
    decreases k,
{
    if k > 0 {
        lemma_survivors_upto_sorted(models, outcomes, opts, k - 1);
        let pre = spec_survivors_upto(models, outcomes, opts, k - 1);
        let cur = spec_survivors_upto(models, outcomes, opts, k);
        assert forall|j: int| 0 <= j < cur.len() implies 0 <= #[trigger] cur[j] < k by {
            if j < pre.len() {
                assert(cur[j] == pre[j]);
                assert(0 <= pre[j] < k - 1);
            } else {
                assert(cur == pre.push(k - 1));
                assert(cur[j] == k - 1);
            }
        }
        assert forall|j1: int, j2: int|
            0 <= j1 < j2 < cur.len() implies #[trigger] cur[j1] < #[trigger] cur[j2] by {
            if j2 < pre.len() {
                assert(cur[j1] == pre[j1]);
                assert(cur[j2] == pre[j2]);
                assert(pre[j1] < pre[j2]);
            } else {
                assert(cur == pre.push(k - 1));
                assert(cur[j2] == k - 1);
                assert(cur[j1] == pre[j1]);
                assert(0 <= pre[j1] < k - 1);
            }
        }
    }
}

/// An index below `k` survives among the first `k` items exactly when its
/// slot is not dropped.
pub proof fn lemma_survivors_upto_contains(
    models: Seq<EntryModel>,
    outcomes: Seq<Option<ItemOutcome>>,
    opts: ExtractionOpts,
    k: int,
    x: int,
)
    requires
        0 <= x < k,
    ensures
        spec_survivors_upto(models, outcomes, opts, k).contains(x) <==> !(spec_slot(
            models,
            outcomes,
            opts,
            x,
        ) is Dropped),
    decreases k,
{
    let pre = spec_survivors_upto(models, outcomes, opts, k - 1);
    let cur = spec_survivors_upto(models, outcomes, opts, k);
    lemma_survivors_upto_sorted(models, outcomes, opts, k - 1);
    if x == k - 1 {
        if spec_slot(models, outcomes, opts, x) is Dropped {
            assert(cur == pre);
            if pre.contains(x) {
                let idx = choose|idx: int| 0 <= idx < pre.len() && pre[idx] == x;
                assert(pre[idx] < k - 1);
                assert(false);
            }
        } else {
            assert(cur == pre.push(k - 1));
            assert(cur[cur.len() - 1] == x);
            assert(cur.contains(x));
        }
    } else {
        lemma_survivors_upto_contains(models, outcomes, opts, k - 1, x);
        if spec_slot(models, outcomes, opts, k - 1) is Dropped {
            assert(cur == pre);
        } else {
            assert(cur == pre.push(k - 1));
            if pre.contains(x) {
                let idx = choose|idx: int| 0 <= idx < pre.len() && pre[idx] == x;
                assert(cur[idx] == x);
                assert(cur.contains(x));
            }
            if cur.contains(x) {
                let idx = choose|idx: int| 0 <= idx < cur.len() && cur[idx] == x;
                if idx < pre.len() {
                    assert(pre[idx] == x);
                    assert(pre.contains(x));
                } else {
                    assert(cur[idx] == k - 1);
                    assert(false);
                }
            }
        }
    }
}

/// The output item count never exceeds the input item count, for all feeds
/// and all policies.
pub proof fn lemma_output_count_bounded(
    orig: Seq<FeedEntry>,
    outcomes: Seq<Option<ItemOutcome>>,
    opts: ExtractionOpts,
    out: Seq<FeedEntry>,
)
    requires
        spec_patched(orig, outcomes, opts, out),
    ensures
        out.len() <= orig.len(),
{
    assert(spec_models(orig).len() == orig.len());
    lemma_survivors_upto_len(spec_models(orig), outcomes, opts, orig.len() as int);
}

/// Output item order equals input item order restricted to the surviving
/// items: the survivor indices are strictly increasing, whatever the
/// outcomes.
pub proof fn lemma_order_preserved(
    models: Seq<EntryModel>,
    outcomes: Seq<Option<ItemOutcome>>,
    opts: ExtractionOpts,
)
    ensures
        forall|j1: int, j2: int|
            0 <= j1 < j2 < spec_survivors(models, outcomes, opts).len()
                ==> #[trigger] spec_survivors(models, outcomes, opts)[j1]
                < #[trigger] spec_survivors(models, outcomes, opts)[j2],
{
    lemma_survivors_upto_sorted(models, outcomes, opts, models.len() as int);
}

/// An index survives exactly when its slot is not dropped.
pub proof fn lemma_survivor_membership(
    models: Seq<EntryModel>,
    outcomes: Seq<Option<ItemOutcome>>,
    opts: ExtractionOpts,
    x: int,
)
    requires
        0 <= x < models.len(),
    ensures
        spec_survivors(models, outcomes, opts).contains(x) <==> !(spec_slot(
            models,
            outcomes,
            opts,
            x,
        ) is Dropped),
{
    lemma_survivors_upto_contains(models, outcomes, opts, models.len() as int, x);
}

/// Items beyond the eligible prefix pass through: each such index survives,
/// and the output holds exactly the input entry there.
pub proof fn lemma_tail_preserved(
    orig: Seq<FeedEntry>,
    outcomes: Seq<Option<ItemOutcome>>,
    opts: ExtractionOpts,
    out: Seq<FeedEntry>,
    k: int,
)
    requires
        spec_patched(orig, outcomes, opts, out),
        spec_eligible_count(opts.max_items, orig.len() as int) <= k < orig.len(),
    ensures
        exists|j: int| 0 <= j < out.len() && #[trigger] out[j] == orig[k],
{
    let models = spec_models(orig);
    assert(models.len() == orig.len());
    assert(spec_slot(models, outcomes, opts, k) is KeptOriginal);
    lemma_survivor_membership(models, outcomes, opts, k);
    let ks = spec_survivors(models, outcomes, opts);
    assert(ks.contains(k));
    let j = choose|j: int| 0 <= j < ks.len() && ks[j] == k;
    assert(slot_output_ok(orig, outcomes, opts, k, out[j]));
    assert(out[j] == orig[k]);
}

/// A failed eligible item (no candidate URL, or an extraction that did not
/// succeed) is present unchanged when `keep_failed` holds and absent from
/// the survivors when it does not.
pub proof fn lemma_failed_item_policy(
    orig: Seq<FeedEntry>,
    outcomes: Seq<Option<ItemOutcome>>,
    opts: ExtractionOpts,
    out: Seq<FeedEntry>,
    k: int,
)
    requires
        spec_patched(orig, outcomes, opts, out),
        0 <= k < spec_eligible_count(opts.max_items, orig.len() as int),
        spec_item_error(spec_models(orig)[k].url, outcomes[k]) is Some,
    ensures
        opts.keep_failed ==> exists|j: int| 0 <= j < out.len() && #[trigger] out[j] == orig[k],
        !opts.keep_failed ==> !spec_survivors(spec_models(orig), outcomes, opts).contains(k),
{
    let models = spec_models(orig);
    assert(models.len() == orig.len());
    lemma_survivor_membership(models, outcomes, opts, k);
    if opts.keep_failed {
        assert(spec_slot(models, outcomes, opts, k) is KeptOriginal);
        let ks = spec_survivors(models, outcomes, opts);
        assert(ks.contains(k));
        let j = choose|j: int| 0 <= j < ks.len() && ks[j] == k;
        assert(slot_output_ok(orig, outcomes, opts, k, out[j]));
        assert(out[j] == orig[k]);
    } else {
        assert(spec_slot(models, outcomes, opts, k) is Dropped);
    }
}

/// A successfully extracted eligible item survives, rewritten: same URL, an
/// item of the same family, and the new body demanded by the policy.
pub proof fn lemma_success_rewritten(
    orig: Seq<FeedEntry>,
    outcomes: Seq<Option<ItemOutcome>>,
    opts: ExtractionOpts,
    out: Seq<FeedEntry>,
    k: int,
)
    requires
        spec_patched(orig, outcomes, opts, out),
        0 <= k < spec_eligible_count(opts.max_items, orig.len() as int),
        spec_item_error(spec_models(orig)[k].url, outcomes[k]) is None,
    ensures
        exists|j: int|
            0 <= j < out.len() && spec_rewrite_ok(
                orig[k],
                spec_new_body(
                    spec_models(orig)[k].body,
                    spec_outcome_text(outcomes[k]),
                    opts.keep_original_content,
                ),
                #[trigger] out[j],
            ),
{
    let models = spec_models(orig);
    assert(models.len() == orig.len());
    lemma_survivor_membership(models, outcomes, opts, k);
    assert(!(spec_slot(models, outcomes, opts, k) is Dropped));
    let ks = spec_survivors(models, outcomes, opts);
    assert(ks.contains(k));
    let j = choose|j: int| 0 <= j < ks.len() && ks[j] == k;
    assert(slot_output_ok(orig, outcomes, opts, k, out[j]));
}

/// The rewritten body is exactly the extracted text, or the original body
/// immediately followed by the extracted text when the original content is
/// kept (an absent original counting as empty).
pub proof fn lemma_new_body_shape(original: Option<Seq<char>>, extracted: Seq<char>)
    ensures
        spec_new_body(original, extracted, false) == extracted,
        original is Some ==> spec_new_body(original, extracted, true) == original->0 + extracted,
        original is None ==> spec_new_body(original, extracted, true) == extracted,
{
    if original is None {
        assert(Seq::<char>::empty() + extracted =~= extracted);
    }
}

/// The article text inside an outcome, when the outcome is a success.
fn outcome_success_text(oc: &Option<ItemOutcome>) -> (r: Option<&String>)
    ensures
        (r is Some) == (match *oc {
            Some(ItemOutcome::Success(_)) => true,
            _ => false,
        }),
        r is Some ==> spec_outcome_text(*oc) == (r->0)@,
{
    match oc {
        Some(ItemOutcome::Success(t)) => Some(t),
        Some(ItemOutcome::Failure) => None,
        None => None,
    }
}

/// Rewrite an item collection: the first `eligible_count` items are
/// rewritten, kept, or dropped according to their extraction outcome and the
/// policy; the rest pass through unchanged; order is preserved throughout.
pub fn patch_entries(
    entries: Vec<FeedEntry>,
    outcomes: &Vec<Option<ItemOutcome>>,
    opts: &ExtractionOpts,
) -> (r: Vec<FeedEntry>)
    requires
        outcomes@.len() == spec_eligible_count(opts.max_items, entries@.len() as int),
    ensures
        spec_patched(entries@, outcomes@, *opts, r@),
{
    let ghost orig = entries@;
    let ghost models = spec_models(orig);
    let total = entries.len();
    let n = eligible_count(&opts.max_items, total);
    let mut rest = entries;
    let mut out: Vec<FeedEntry> = Vec::new();
    let mut i: usize = 0;
    proof {
        assert(orig.skip(0) =~= orig);
    }
    while rest.len() > 0
        invariant
            orig.len() == total as int,
            i + rest@.len() == orig.len(),
            rest@ == orig.skip(i as int),
            models == spec_models(orig),
            n as int == spec_eligible_count(opts.max_items, orig.len() as int),
            n <= total,
            outcomes@.len() == n,
            out@.len() == spec_survivors_upto(models, outcomes@, *opts, i as int).len(),
            forall|j: int|
                0 <= j < out@.len() ==> 0 <= spec_survivors_upto(models, outcomes@, *opts, i as int)[j]
                    < orig.len() && slot_output_ok(
                    orig,
                    outcomes@,
                    *opts,
                    spec_survivors_upto(models, outcomes@, *opts, i as int)[j],
                    #[trigger] out@[j],
                ),
        decreases rest@.len(),
    {
        let ghost svi = spec_survivors_upto(models, outcomes@, *opts, i as int);
        let ghost out0 = out@;
        let e = rest.remove(0);
        proof {
            assert(orig.skip(i as int)[0] == orig[i as int]);
            assert(orig.skip(i as int).drop_first() =~= orig.skip(i as int + 1));
            assert(models[i as int] == orig[i as int].model());
        }
        if i < n {
            let text_opt: Option<&String> = outcome_success_text(&outcomes[i]);
            if e.url.is_some() {
                proof {
                    assert(models[i as int].url is Some);
                }
                match text_opt {
                    Some(text) => {
                        proof {
                            assert(spec_item_error(models[i as int].url, outcomes@[i as int])
                                is None);
                        }
                        let ne = rewrite_entry(e, text, opts.keep_original_content);
                        proof {
                            assert(slot_output_ok(orig, outcomes@, *opts, i as int, ne));
                        }
                        out.push(ne);
                    },
                    None => {
                        proof {
                            assert(spec_item_error(models[i as int].url, outcomes@[i as int])
                                is Some);
                        }
                        if opts.keep_failed {
                            proof {
                                assert(slot_output_ok(orig, outcomes@, *opts, i as int, e));
                            }
                            out.push(e);
                        } else {
                            proof {
                                assert(spec_slot(models, outcomes@, *opts, i as int) is Dropped);
                            }
                        }
                    },
                }
            } else {
                proof {
                    assert(models[i as int].url is None);
                    assert(spec_item_error(models[i as int].url, outcomes@[i as int]) is Some);
                }
                if opts.keep_failed {
                    proof {
                        assert(slot_output_ok(orig, outcomes@, *opts, i as int, e));
                    }
                    out.push(e);
                } else {
                    proof {
                        assert(spec_slot(models, outcomes@, *opts, i as int) is Dropped);
                    }
                }
            }
        } else {
            proof {
                assert(spec_slot(models, outcomes@, *opts, i as int) is KeptOriginal);
                assert(slot_output_ok(orig, outcomes@, *opts, i as int, e));
            }
            out.push(e);
        }
        proof {
            let svn = spec_survivors_upto(models, outcomes@, *opts, i as int + 1);
            assert(svn == (if spec_slot(models, outcomes@, *opts, i as int) is Dropped {
                svi
            } else {
                svi.push(i as int)
            }));
            lemma_survivors_upto_sorted(models, outcomes@, *opts, i as int + 1);
            if spec_slot(models, outcomes@, *opts, i as int) is Dropped {
                assert(out@ == out0);
            } else {
                assert(out@.len() == out0.len() + 1);
                assert(svn[out0.len() as int] == i as int);
                assert(slot_output_ok(orig, outcomes@, *opts, i as int, out@[out0.len() as int]));
            }
            assert(out@.len() == svn.len());
            assert forall|j: int|
                0 <= j < out@.len() implies 0 <= svn[j] < orig.len() && slot_output_ok(
                orig,
                outcomes@,
                *opts,
                svn[j],
                out@[j],
            ) by {
                assert(0 <= svn[j] < i as int + 1);
                if j < out0.len() {
                    assert(out@[j] == out0[j]);
                    assert(svn[j] == svi[j]);
                }
            }
        }
        i += 1;
    }
    proof {
        assert(orig.skip(orig.len() as int) =~= Seq::<FeedEntry>::empty());
        assert(i as int == orig.len());
        assert(models.len() == orig.len());
        let ks = spec_survivors(spec_models(orig), outcomes@, *opts);
        assert(ks == spec_survivors_upto(models, outcomes@, *opts, i as int));
        lemma_survivors_upto_sorted(models, outcomes@, *opts, i as int);
        assert forall|j: int|
            0 <= j < ks.len() implies 0 <= ks[j] < orig.len() && slot_output_ok(
            orig,
            outcomes@,
            *opts,
            ks[j],
            out@[j],
        ) by {
            assert(0 <= j < out@.len());
            assert(0 <= spec_survivors_upto(models, outcomes@, *opts, i as int)[j] < i as int);
            assert(slot_output_ok(
                orig,
                outcomes@,
                *opts,
                spec_survivors_upto(models, outcomes@, *opts, i as int)[j],
                out@[j],
            ));
        }
        assert(spec_patched(orig, outcomes@, *opts, out@));
    }
    out
}

impl FeedDocument {
    /// The candidate URLs of the eligible items, in document order: one
    /// slot per eligible item, holding the item's article link when it has
    /// one. These are the URLs the extraction capability is to be invoked
    /// with, one fetch per resolvable slot.
    pub fn candidate_urls(&self, opts: &ExtractionOpts) -> (r: Vec<Option<String>>)
        ensures
            r@.len() == spec_eligible_count(opts.max_items, self.entries@.len() as int),
            forall|i: int|
                0 <= i < r@.len() ==> opt_view(#[trigger] r@[i]) == spec_models(self.entries@)[i].url,
    {
        let n = eligible_count(&opts.max_items, self.entries.len());
        let mut urls: Vec<Option<String>> = Vec::new();
        let mut i: usize = 0;
        while i < n
            invariant
                i <= n,
                n <= self.entries@.len(),
                urls@.len() == i as int,
                forall|j: int|
                    0 <= j < i ==> opt_view(#[trigger] urls@[j]) == spec_models(
                        self.entries@,
                    )[j].url,
            decreases n - i,
        {
            let u: Option<String> = match &self.entries[i].url {
                Some(s) => Some(s.clone()),
                None => None,
            };
            proof {
                assert(spec_models(self.entries@)[i as int] == self.entries@[i as int].model());
            }
            urls.push(u);
            i += 1;
        }
        urls
    }

    /// Rewrite this document's item collection from the given per-item
    /// extraction outcomes, under the given policy. The native document and
    /// the document's family are untouched; the entries become exactly the
    /// surviving items, in order.
    pub fn patch_feed(&mut self, outcomes: &Vec<Option<ItemOutcome>>, opts: &ExtractionOpts)
        requires
            old(self).wf(),
            outcomes@.len() == spec_eligible_count(
                opts.max_items,
                old(self).entries@.len() as int,
            ),
        ensures
            final(self).native == old(self).native,
            final(self).wf(),
            spec_patched(old(self).entries@, outcomes@, *opts, final(self).entries@),
    {
        let mut entries: Vec<FeedEntry> = Vec::new();
        core::mem::swap(&mut entries, &mut self.entries);
        let new_entries = patch_entries(entries, outcomes, opts);
        proof {
            let orig = old(self).entries@;
            let ks = spec_survivors(spec_models(orig), outcomes@, *opts);
            assert(spec_patched(orig, outcomes@, *opts, new_entries@));
            assert(new_entries@.len() == ks.len());
            lemma_survivors_upto_sorted(
                spec_models(orig),
                outcomes@,
                *opts,
                spec_models(orig).len() as int,
            );
            assert(spec_models(orig).len() == orig.len());
            assert forall|i: int|
                0 <= i < new_entries@.len() implies self.entry_kind_ok(
                #[trigger] new_entries@[i],
            ) by {
                assert(0 <= i < ks.len());
                assert(0 <= ks[i] < orig.len());
                assert(slot_output_ok(
                    orig,
                    outcomes@,
                    *opts,
                    ks[i],
                    new_entries@[i],
                ));
                assert(old(self).entry_kind_ok(orig[ks[i]]));
            }
        }
        self.entries = new_entries;
    }

    /// Serialize the document: the entries are written back into the native
    /// document as its item collection, and the native serializer renders
    /// it.
    pub fn into_xml(self) -> String
        requires
            self.wf(),
    {
        let ghost orig_entries = self.entries@;
        let FeedDocument { native, entries } = self;
        let mut rest = entries;
        let total = rest.len();
        let mut i: usize = 0;
        proof {
            assert(orig_entries.skip(0) =~= orig_entries);
        }
        match native {
            NativeFeed::Rss(ch) => {
                let mut items: Vec<rss::Item> = Vec::new();
                while rest.len() > 0
                    invariant
                        orig_entries.len() == total as int,
                        i + rest@.len() == orig_entries.len(),
                        rest@ == orig_entries.skip(i as int),
                        forall|j: int|
                            0 <= j < orig_entries.len() ==> (#[trigger] orig_entries[j]).native
                                is Rss,
                    decreases rest@.len(),
                {
                    let e = rest.remove(0);
                    proof {
                        assert(orig_entries.skip(i as int)[0] == orig_entries[i as int]);
                        assert(orig_entries.skip(i as int).drop_first() =~= orig_entries.skip(
                            i as int + 1,
                        ));
                    }
                    match e.native {
                        NativeItem::Rss(item) => items.push(item),
                        NativeItem::Atom(_) => {
                            proof {
                                assert(false);
                            }
                        },
                    }
                    i += 1;
                }
                crate::native::channel_to_xml(&crate::native::channel_with_items(ch, items))
            },
            NativeFeed::Atom(feed) => {
                let mut items: Vec<atom_syndication::Entry> = Vec::new();
                while rest.len() > 0
                    invariant
                        orig_entries.len() == total as int,
                        i + rest@.len() == orig_entries.len(),
                        rest@ == orig_entries.skip(i as int),
                        forall|j: int|
                            0 <= j < orig_entries.len() ==> (#[trigger] orig_entries[j]).native
                                is Atom,
                    decreases rest@.len(),
                {
                    let e = rest.remove(0);
                    proof {
                        assert(orig_entries.skip(i as int)[0] == orig_entries[i as int]);
                        assert(orig_entries.skip(i as int).drop_first() =~= orig_entries.skip(
                            i as int + 1,
                        ));
                    }
                    match e.native {
                        NativeItem::Atom(item) => items.push(item),
                        NativeItem::Rss(_) => {
                            proof {
                                assert(false);
                            }
                        },
                    }
                    i += 1;
                }
                crate::native::atom_feed_to_xml(&crate::native::feed_with_entries(feed, items))
            },
        }
    }
}

} // verus!
