//! File-system changes: how they are collected into batches, and what a batch
//! tells the user.

use vstd::prelude::*;

use super::catalog::{
    diagnostic_views, scan_diagnostic, CatalogDiagnostic, CatalogDiagnosticKind, DiagnosticView,
};
use super::config::ConfigStore;
use super::path_order::{
    in_path_order, lemma_inserted_in_order, lemma_later_paths, law_paths_are_ordered, order_of, path_before, path_known,
    same_path, PathOrder, PathStyle,
};
use crate::text::{chars_of, decimal, push_decimal, push_text, texts};

verus! {

/// Collects changed paths until the directory has been quiet for a while.
pub struct CatalogDebouncer {
    delay_ms: u64,
    style: PathStyle,
    paths: Vec<String>,
}

impl View for CatalogDebouncer {
    type V = Seq<Seq<char>>;

    /// The paths that changed, in their order.
    closed spec fn view(&self) -> Seq<Seq<char>> {
        texts(self.paths@)
    }
}

impl CatalogDebouncer {
    #[verifier::type_invariant]
    spec fn ordered(self) -> bool {
        in_path_order(texts(self.paths@), self.style)
    }

    pub closed spec fn quiet_time(self) -> u64 {
        self.delay_ms
    }

    pub closed spec fn path_style(self) -> PathStyle {
        self.style
    }

    pub fn new(delay_ms: u64, style: PathStyle) -> (result: Self)
        ensures
            result@.len() == 0,
            result.quiet_time() == delay_ms,
            result.path_style() == style,
    {
        CatalogDebouncer { delay_ms, style, paths: Vec::new() }
    }

    /// How long the directory has to be quiet, in milliseconds.
    pub fn delay_ms(&self) -> (result: u64)
        ensures
            result == self.quiet_time(),
    {
        self.delay_ms
    }

    /// Notes a changed path; a path that was noted before is not noted again.
    pub fn changed(&mut self, path: String)
        ensures
            in_path_order(final(self)@, final(self).path_style()),
            if path_known(old(self)@, path@, old(self).path_style()) {
                final(self)@ == old(self)@
            } else {
                forall|other: Seq<char>| #[trigger]
                    final(self)@.contains(other) <==> old(self)@.contains(other) || other == path@
            },
            final(self).quiet_time() == old(self).quiet_time(),
            final(self).path_style() == old(self).path_style(),
    {
        proof {
            use_type_invariant(&*self);
        }
        let style = self.style;
        let mut paths: Vec<String> = Vec::new();
        core::mem::swap(&mut paths, &mut self.paths);
        let ghost before = texts(paths@);
        let ghost new = path@;
        let characters = chars_of(path.as_str());
        let mut place: usize = 0;
        let mut known = false;
        while place < paths.len() && !known
            invariant
                place <= paths@.len(),
                before == texts(paths@),
                characters@ == new,
                in_path_order(before, style),
                forall|earlier: int| 0 <= earlier < place ==> path_before(#[trigger] before[earlier], new, style),
                known ==> place < paths@.len() && same_path(before[place as int], new, style),
            ensures
                place <= paths@.len(),
                forall|earlier: int| 0 <= earlier < place ==> path_before(#[trigger] before[earlier], new, style),
                known ==> place < paths@.len() && same_path(before[place as int], new, style),
                !known ==> forall|later: int|
                    place <= later < paths@.len() ==> path_before(new, #[trigger] before[later], style),
            decreases paths@.len() - place + (if known { 0int } else { 1 }),
        {
            assert(before[place as int] == paths@[place as int]@);
            let own = chars_of(paths[place].as_str());
            match order_of(&own, &characters, style) {
                PathOrder::Before => {
                    place = place + 1;
                },
                PathOrder::Same => {
                    known = true;
                },
                PathOrder::After => {
                    proof {
                        lemma_later_paths(before, place as int, new, style);
                    }
                    break;
                },
            }
        }
        if !known {
            paths.insert(place, path);
            assert(texts(paths@) =~= before.insert(place as int, new));
            proof {
                lemma_inserted_in_order(before, place as int, new, style);
                assert forall|index: int| 0 <= index < before.len() implies !same_path(
                    #[trigger] before[index],
                    new,
                    style,
                ) by {
                    law_paths_are_ordered(before[index], new, style);
                }
            }
        } else {
            assert(path_known(before, new, style));
        }
        self.paths = paths;
    }

    /// Hands out the paths that changed, in their order, and forgets them.
    pub fn take(&mut self) -> (result: Vec<String>)
        ensures
            texts(result@) == old(self)@,
            in_path_order(old(self)@, old(self).path_style()),
            final(self)@.len() == 0,
            final(self).quiet_time() == old(self).quiet_time(),
            final(self).path_style() == old(self).path_style(),
    {
        proof {
            use_type_invariant(&*self);
        }
        let mut paths: Vec<String> = Vec::new();
        core::mem::swap(&mut paths, &mut self.paths);
        paths
    }
}

/// Something that happened to a watched directory.
#[derive(Debug, PartialEq, Eq)]
pub enum CatalogWatchEvent {
    Changed(String),
    Rescan,
    Error(String),
}

/// The most events that wait to be collected.
pub const WATCH_CHANNEL_CAPACITY: usize = 64;

/// The most errors that one batch keeps.
pub const WATCH_MAX_BATCH_DIAGNOSTICS: usize = 32;

/// The longest time that events may postpone a batch, in milliseconds.
pub const WATCH_MAX_LATENCY_MS: u64 = 2_000;

/// What happened since the last batch. A change of any path asks for a full scan.
#[derive(Debug, PartialEq, Eq)]
pub struct CatalogWatchBatch {
    pub rescan_required: bool,
    pub errors: Vec<String>,
    pub dropped_count: u64,
}

/// Notes an event in a batch. Only errors are kept, up to the limit; further ones
/// are counted.
pub fn retain_watch_event(event: CatalogWatchEvent, errors: &mut Vec<String>, dropped: &mut u64)
    ensures
        match event {
            CatalogWatchEvent::Error(message) => if old(errors)@.len() < WATCH_MAX_BATCH_DIAGNOSTICS {
                final(errors)@ == old(errors)@.push(message) && *final(dropped) == *old(dropped)
            } else {
                final(errors)@ == old(errors)@ && *final(dropped) == (if *old(dropped) < u64::MAX {
                    *old(dropped) + 1
                } else {
                    u64::MAX as int
                })
            },
            _ => final(errors)@ == old(errors)@ && *final(dropped) == *old(dropped),
        },
{
    if let CatalogWatchEvent::Error(message) = event {
        if errors.len() < WATCH_MAX_BATCH_DIAGNOSTICS {
            errors.push(message);
        } else {
            *dropped = dropped.saturating_add(1);
        }
    }
}

/// Closes a batch: a full scan is due, and nothing that was dropped goes uncounted.
pub fn close_batch(errors: Vec<String>, dropped_here: u64, dropped_before: u64) -> (result: CatalogWatchBatch)
    requires
        dropped_here + dropped_before <= u64::MAX,
    ensures
        result.rescan_required,
        result.errors == errors,
        result.dropped_count == dropped_here + dropped_before,
{
    CatalogWatchBatch { rescan_required: true, errors, dropped_count: dropped_here + dropped_before }
}

/// When a batch is closed: after a quiet time, which every event starts anew, but
/// never later than the hard limit.
#[derive(Clone, Copy, Debug, PartialEq, Eq, Structural)]
pub struct BatchTimer {
    pub delay_ms: u64,
    pub quiet_at_ms: u64,
    pub hard_at_ms: u64,
}

impl BatchTimer {
    /// The time at which the batch is closed, if nothing more happens.
    pub open spec fn closes_at(self) -> u64 {
        if self.quiet_at_ms <= self.hard_at_ms {
            self.quiet_at_ms
        } else {
            self.hard_at_ms
        }
    }

    /// Starts with the first event.
    pub fn start(now_ms: u64, delay_ms: u64, max_latency_ms: u64) -> (result: Self)
        requires
            now_ms + delay_ms <= u64::MAX,
            now_ms + max_latency_ms <= u64::MAX,
        ensures
            result.delay_ms == delay_ms,
            result.quiet_at_ms == now_ms + delay_ms,
            result.hard_at_ms == now_ms + max_latency_ms,
    {
        BatchTimer { delay_ms, quiet_at_ms: now_ms + delay_ms, hard_at_ms: now_ms + max_latency_ms }
    }

    /// Another event came.
    pub fn event(&mut self, now_ms: u64)
        requires
            now_ms + old(self).delay_ms <= u64::MAX,
        ensures
            *final(self) == (BatchTimer {
                quiet_at_ms: (now_ms + old(self).delay_ms) as u64,
                ..*old(self)
            }),
    {
        self.quiet_at_ms = now_ms + self.delay_ms;
    }

    /// Whether the batch is closed now.
    pub fn is_due(&self, now_ms: u64) -> (result: bool)
        ensures
            result == (self.closes_at() <= now_ms),
    {
        self.quiet_at_ms <= now_ms || self.hard_at_ms <= now_ms
    }
}

/// The time at which a batch is closed after events at these times.
pub open spec fn closes_after(timer: BatchTimer, events: Seq<u64>) -> u64
    decreases events.len(),
{
    if events.len() == 0 {
        timer.closes_at()
    } else {
        closes_after(
            BatchTimer { quiet_at_ms: (events[0] + timer.delay_ms) as u64, ..timer },
            events.skip(1),
        )
    }
}

/// A storm of events never postpones a batch beyond the hard limit.
pub proof fn law_storms_do_not_postpone_a_batch(timer: BatchTimer, events: Seq<u64>)
    ensures
        closes_after(timer, events) <= timer.hard_at_ms,
    decreases events.len(),
{
    if events.len() > 0 {
        law_storms_do_not_postpone_a_batch(
            BatchTimer { quiet_at_ms: (events[0] + timer.delay_ms) as u64, ..timer },
            events.skip(1),
        );
    }
}

/// Keeps the known models of a directory up to date.
#[derive(Debug)]
pub struct CatalogService {
    root: String,
    store: ConfigStore,
}

/// What a batch tells the user: its errors, then how much was dropped.
pub open spec fn batch_diagnostics(root: Seq<char>, batch: CatalogWatchBatch) -> Seq<DiagnosticView> {
    let errors = texts(batch.errors@).map_values(
        |message: Seq<char>| DiagnosticView { kind: CatalogDiagnosticKind::Scan, path: root, message },
    );
    if batch.dropped_count > 0 {
        errors.push(
            DiagnosticView {
                kind: CatalogDiagnosticKind::Scan,
                path: root,
                message: "watch event buffer overflow: dropped "@ + decimal(batch.dropped_count as nat)
                    + "; full rescan required"@,
            },
        )
    } else {
        errors
    }
}

impl CatalogService {
    pub closed spec fn root_text(self) -> Seq<char> {
        self.root@
    }

    pub closed spec fn config_store(self) -> ConfigStore {
        self.store
    }

    pub fn new(root: String, store: ConfigStore) -> (result: Self)
        ensures
            result.root_text() == root@,
            result.config_store() == store,
    {
        CatalogService { root, store }
    }

    pub fn root(&self) -> (result: &str)
        ensures
            result@ == self.root_text(),
    {
        self.root.as_str()
    }

    pub fn store(&self) -> (result: &ConfigStore)
        ensures
            *result == self.config_store(),
    {
        &self.store
    }

    /// The diagnostics of a reconciliation that a batch led to: those of the batch
    /// first.
    pub fn process_batch(&self, batch: CatalogWatchBatch, reconciled: Vec<CatalogDiagnostic>) -> (result: Vec<
        CatalogDiagnostic,
    >)
        ensures
            diagnostic_views(result@) == batch_diagnostics(self.root_text(), batch) + diagnostic_views(
                reconciled@,
            ),
    {
        let mut diagnostics: Vec<CatalogDiagnostic> = Vec::new();
        let ghost expected = texts(batch.errors@).map_values(
            |message: Seq<char>|
                DiagnosticView { kind: CatalogDiagnosticKind::Scan, path: self.root@, message },
        );
        for index in 0..batch.errors.len()
            invariant
                expected == texts(batch.errors@).map_values(
                    |message: Seq<char>|
                        DiagnosticView { kind: CatalogDiagnosticKind::Scan, path: self.root@, message },
                ),
                diagnostic_views(diagnostics@) == expected.take(index as int),
        {
            let ghost before = diagnostic_views(diagnostics@);
            let diagnostic = scan_diagnostic(self.root.as_str(), batch.errors[index].as_str());
            let ghost view = diagnostic@;
            diagnostics.push(diagnostic);
            assert(diagnostic_views(diagnostics@) =~= before.push(view));
            assert(expected.take(index + 1) =~= expected.take(index as int).push(expected[index as int]));
        }
        assert(expected.take(expected.len() as int) =~= expected);
        if batch.dropped_count > 0 {
            let mut message = "watch event buffer overflow: dropped ".to_owned();
            push_decimal(&mut message, batch.dropped_count);
            push_text(&mut message, "; full rescan required");
            let ghost before = diagnostic_views(diagnostics@);
            let diagnostic = scan_diagnostic(self.root.as_str(), message.as_str());
            let ghost view = diagnostic@;
            diagnostics.push(diagnostic);
            assert(diagnostic_views(diagnostics@) =~= before.push(view));
        }
        let mut rest = reconciled;
        let ghost before = diagnostic_views(diagnostics@);
        diagnostics.append(&mut rest);
        assert(diagnostic_views(diagnostics@) =~= before + diagnostic_views(reconciled@));
        diagnostics
    }
}

} // verus!
