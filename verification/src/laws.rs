//! Properties that relate classification and action execution across runs.
//!
//! Executing a planned write replaces the target file's whole content with
//! the source side's truncated snapshot; the next run then observes that
//! snapshot as the raw text on the target side. Each law below says what
//! the re-classification of such a file yields, and that a store with
//! nothing left to do plans no further writes.

use vstd::prelude::*;

use crate::cli::Cli;
use crate::content::{lemma_truncated_idempotent, truncated};
use crate::manager::{
    classified, planned, planned_op, FileView, ObservationView, StatusView, WriteOpView,
};

verus! {

/// Round trip for an upload: a file classified `Upload` whose planned write
/// has been executed — the remote side now holds exactly the written
/// content — re-classifies as `UpToDate`.
pub proof fn lemma_upload_round_trip(o: ObservationView)
    requires
        o.local is Some,
        o.remote is None,
    ensures
        classified(o) matches StatusView::Upload(f) && classified(
            ObservationView { remote: Some(f.content), ..o },
        ) == StatusView::UpToDate(
            FileView { short_path: o.file.local_short, full_path: o.file.local_full },
        ),
{
    lemma_truncated_idempotent(o.local->Some_0);
}

/// Round trip for a download: a file classified `Download` whose planned
/// write has been executed — the local side now holds exactly the written
/// content — re-classifies as `UpToDate`.
pub proof fn lemma_download_round_trip(o: ObservationView)
    requires
        o.local is None,
        o.remote is Some,
    ensures
        classified(o) matches StatusView::Download(f) && classified(
            ObservationView { local: Some(f.content), ..o },
        ) == StatusView::UpToDate(
            FileView { short_path: o.file.local_short, full_path: o.file.local_full },
        ),
{
    lemma_truncated_idempotent(o.remote->Some_0);
}

/// An update towards the local side settles the file: once the local path
/// holds the remote side's truncated snapshot, re-classification yields
/// `UpToDate`.
pub proof fn lemma_update_local_settles(o: ObservationView)
    requires
        o.local is Some,
        o.remote is Some,
        classified(o) is Update,
    ensures
        classified(o) matches StatusView::Update(l, r) && classified(
            ObservationView { local: Some(r.content), ..o },
        ) == StatusView::UpToDate(
            FileView { short_path: o.file.local_short, full_path: o.file.local_full },
        ),
{
    lemma_truncated_idempotent(o.remote->Some_0);
}

/// An update towards the remote side settles the file: once the remote
/// path holds the local side's truncated snapshot, re-classification
/// yields `UpToDate`.
pub proof fn lemma_update_remote_settles(o: ObservationView)
    requires
        o.local is Some,
        o.remote is Some,
        classified(o) is Update,
    ensures
        classified(o) matches StatusView::Update(l, r) && classified(
            ObservationView { remote: Some(l.content), ..o },
        ) == StatusView::UpToDate(
            FileView { short_path: o.file.local_short, full_path: o.file.local_full },
        ),
{
    lemma_truncated_idempotent(o.local->Some_0);
}

/// Idempotence of a completed run: a store in which every file is
/// `UpToDate` or `Absent` plans no write, whatever action is requested —
/// the second run of a succeeded action finds nothing left to match.
pub proof fn lemma_settled_plans_nothing(ss: Seq<StatusView>, cli: Cli)
    requires
        forall|i: int| 0 <= i < ss.len() ==> (ss[i] is UpToDate || ss[i] is Absent),
    ensures
        planned(ss, cli) == Seq::<WriteOpView>::empty(),
    decreases ss.len(),
{
    if ss.len() > 0 {
        let rest = ss.drop_last();
        assert forall|i: int| 0 <= i < rest.len() implies (rest[i] is UpToDate || rest[i]
            is Absent) by {
            assert(rest[i] == ss[i]);
        }
        lemma_settled_plans_nothing(rest, cli);
        assert(ss.last() == ss[ss.len() - 1]);
        assert(planned_op(ss.last(), cli) == Seq::<WriteOpView>::empty());
        assert(planned(rest, cli) + planned_op(ss.last(), cli) =~= Seq::<WriteOpView>::empty());
    }
}

} // verus!
