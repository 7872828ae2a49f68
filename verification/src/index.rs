//! The coarse incremental text index, an advisory layer over nucleo's
//! matcher: it never filters the exact ranking pass, it only signals when a
//! rebuild is worth dispatching.
//!
//! Sessions are registered under dense integer ids (their position in the
//! live set); the matcher holds each id with its search blob as the single
//! matching column.

use nucleo::Nucleo;
use vstd::prelude::*;

verus! {

/// The coarse index: a nucleo matcher over `(id, blob)` items.  The matcher
/// and its injector live behind this opaque wrapper; `index_ids` names what
/// it holds.
#[verifier::external_body]
pub struct CoarseIndex {
    mat: Nucleo<(u64, String)>,
}

/// The ids registered in the index, in registration order.
pub uninterp spec fn index_ids(ix: &CoarseIndex) -> Seq<u64>;

impl CoarseIndex {
    /// The registered ids, in registration order.
    pub open spec fn ids(&self) -> Seq<u64> {
        index_ids(self)
    }

    /// Relies on `Nucleo::new`: builds an empty single-column matcher with
    /// a no-op change notifier (the orchestrator polls instead).
    #[verifier::external_body]
    pub fn new() -> (r: CoarseIndex)
        ensures
            index_ids(&r) == Seq::<u64>::empty(),
    {
        let notify: std::sync::Arc<dyn Fn() + Sync + Send> = std::sync::Arc::new(|| ());
        CoarseIndex { mat: Nucleo::new(nucleo::Config::DEFAULT, notify, None, 1) }
    }

    /// Relies on `Injector::push`: appends the item to the matcher's item
    /// list, filling its matching column with the blob.  Safe to call while
    /// a pattern is pending.
    #[verifier::external_body]
    pub fn push(&mut self, id: u64, blob: &str)
        ensures
            index_ids(final(self)) == index_ids(old(self)).push(id),
    {
        self.mat.injector().push((id, blob.to_owned()), |item, columns| {
            columns[0] = nucleo::Utf32String::from(item.1.as_str());
        });
    }

    /// Relies on `MultiPattern::reparse`: replaces the active pattern.
    /// Passing `append` promises the previous pattern text is a prefix of
    /// the new one, letting the matcher narrow its candidate set instead of
    /// rescanning.
    #[verifier::external_body]
    pub fn reparse(&mut self, query: &str, append: bool)
        ensures
            index_ids(final(self)) == index_ids(old(self)),
    {
        self.mat.pattern.reparse(
            0,
            query,
            nucleo::pattern::CaseMatching::Smart,
            nucleo::pattern::Normalization::Smart,
            append,
        );
    }

    /// Relies on `Nucleo::tick`: advances bounded background matching and
    /// reports whether the matched set changed.  The flag depends on worker
    /// timing, so nothing is assumed of its value.
    #[verifier::external_body]
    pub fn tick(&mut self, timeout_ms: u64) -> (changed: bool)
        ensures
            index_ids(final(self)) == index_ids(old(self)),
    {
        self.mat.tick(timeout_ms).changed
    }

    /// Relies on `Snapshot::matched_items`: the ids the matcher currently
    /// reports as matching, in its order.  Best-effort and timing-dependent;
    /// nothing is assumed of the value.
    #[verifier::external_body]
    pub fn snapshot(&self) -> Vec<u64> {
        let snap = self.mat.snapshot();
        snap.matched_items(0..snap.matched_item_count()).map(|item| item.data.0).collect()
    }
}

} // verus!
