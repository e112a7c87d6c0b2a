//! The firmware fetch pipeline, driven as a state machine.
//!
//! The embedding application performs each piece of I/O — opening the
//! cache file, issuing the network request, streaming the body, seeking,
//! reading the bytes back — and reports the outcomes here. Every decision
//! between those steps is verified: which lifecycle events are emitted
//! and in what order, how the cumulative progress count grows, when
//! checksum verification passes, and what the final installation request
//! carries.

use vstd::prelude::*;
use crate::checksum::{
    hex_bytes, lemma_hex_bytes_digits, lemma_hex_bytes_len, sha256_digest, sha256_of,
    spec_verification_passes, to_hex_lower, verify_payload, Checksum,
};
use crate::device::Device;
use crate::error::Error;
use crate::flags::{spec_effective_flags, InstallFlags};
use crate::install::{
    install_request_for_device, options_match, spec_flag_options, InstallRequest,
};

verus! {

/// A lifecycle notification handed to the caller's callback during an
/// update. The variants are strictly ordered as listed; some may be
/// skipped for a given update, but none is ever reordered or duplicated.
#[derive(Clone, Copy, Debug, PartialEq, Eq, Structural)]
pub enum FlashEvent {
    /// A download is about to begin, with the payload's total byte size.
    DownloadInitiate(u64),
    /// Cumulative bytes written so far.
    DownloadUpdate(usize),
    /// The download finished.
    DownloadComplete,
    /// Checksum verification is in progress.
    VerifyingChecksum,
    /// The payload was handed to the daemon for installation.
    FlashInProgress,
}

/// The position of an event in the fixed lifecycle order.
pub open spec fn event_stage(e: FlashEvent) -> int {
    match e {
        FlashEvent::DownloadInitiate(_) => 0,
        FlashEvent::DownloadUpdate(_) => 1,
        FlashEvent::DownloadComplete => 2,
        FlashEvent::VerifyingChecksum => 3,
        FlashEvent::FlashInProgress => 4,
    }
}

/// Events appear in lifecycle order: no event is ever emitted after one
/// of a later stage.
pub open spec fn events_ordered(s: Seq<FlashEvent>) -> bool {
    forall|i: int, j: int|
        #![trigger s[i], s[j]]
        0 <= i < j < s.len() ==> event_stage(s[i]) <= event_stage(s[j])
}

/// How many events of the given stage were emitted.
pub open spec fn count_stage(s: Seq<FlashEvent>, st: int) -> int
    decreases s.len(),
{
    if s.len() == 0 {
        0
    } else {
        count_stage(s.drop_last(), st) + if event_stage(s.last()) == st {
            1int
        } else {
            0int
        }
    }
}

/// Progress events never decrease in cumulative byte count.
pub open spec fn updates_monotone(s: Seq<FlashEvent>) -> bool {
    forall|i: int, j: int|
        #![trigger s[i], s[j]]
        0 <= i < j < s.len() ==> (s[i] matches FlashEvent::DownloadUpdate(a) ==> (s[j] matches
            FlashEvent::DownloadUpdate(b) ==> a <= b))
}

/// Every progress event reports at most `n` cumulative bytes.
pub open spec fn updates_bounded(s: Seq<FlashEvent>, n: usize) -> bool {
    forall|i: int|
        0 <= i < s.len() ==> (#[trigger] s[i] matches FlashEvent::DownloadUpdate(a) ==> a <= n)
}

/// If any progress event was emitted, one reports exactly `n` cumulative
/// bytes: together with monotonicity, the final report equals the total.
pub open spec fn updates_reach(s: Seq<FlashEvent>, n: usize) -> bool {
    (exists|i: int| 0 <= i < s.len() && #[trigger] s[i] is DownloadUpdate) ==> (exists|i: int|
        0 <= i < s.len() && #[trigger] s[i] == FlashEvent::DownloadUpdate(n))
}

pub proof fn lemma_count_stage_push(s: Seq<FlashEvent>, e: FlashEvent, st: int)
    ensures
        count_stage(s.push(e), st) == count_stage(s, st) + if event_stage(e) == st {
            1int
        } else {
            0int
        },
{
    assert(s.push(e).drop_last() =~= s);
    assert(s.push(e).last() == e);
}

pub proof fn lemma_count_stage_zero(s: Seq<FlashEvent>, st: int)
    requires
        count_stage(s, st) == 0,
    ensures
        forall|i: int| 0 <= i < s.len() ==> event_stage(#[trigger] s[i]) != st,
    decreases s.len(),
{
    if s.len() > 0 {
        lemma_count_stage_nonneg(s.drop_last(), st);
        lemma_count_stage_zero(s.drop_last(), st);
        assert(forall|i: int| 0 <= i < s.len() - 1 ==> s.drop_last()[i] == s[i]);
    }
}

pub proof fn lemma_count_stage_nonneg(s: Seq<FlashEvent>, st: int)
    ensures
        count_stage(s, st) >= 0,
    decreases s.len(),
{
    if s.len() > 0 {
        lemma_count_stage_nonneg(s.drop_last(), st);
    }
}

/// Appending a non-progress event of a stage no earlier than anything
/// logged keeps the log ordered and leaves every progress property as it
/// was.
proof fn lemma_log_push_non_update(s: Seq<FlashEvent>, e: FlashEvent, n: usize)
    requires
        events_ordered(s),
        updates_monotone(s),
        updates_bounded(s, n),
        updates_reach(s, n),
        !(e is DownloadUpdate),
        forall|i: int| 0 <= i < s.len() ==> event_stage(#[trigger] s[i]) <= event_stage(e),
    ensures
        events_ordered(s.push(e)),
        updates_monotone(s.push(e)),
        updates_bounded(s.push(e), n),
        updates_reach(s.push(e), n),
{
    let t = s.push(e);
    assert forall|i: int, j: int|
        #![trigger t[i], t[j]]
        0 <= i < j < t.len() implies event_stage(t[i]) <= event_stage(t[j]) by {
        if j < s.len() {
            assert(t[i] == s[i] && t[j] == s[j]);
        } else {
            assert(t[i] == s[i] && t[j] == e);
        }
    }
    assert forall|i: int, j: int|
        #![trigger t[i], t[j]]
        0 <= i < j < t.len() implies (t[i] matches FlashEvent::DownloadUpdate(a) ==> (t[j] matches
        FlashEvent::DownloadUpdate(b) ==> a <= b)) by {
        if j < s.len() {
            assert(t[i] == s[i] && t[j] == s[j]);
        } else {
            assert(t[j] == e);
        }
    }
    assert forall|i: int|
        0 <= i < t.len() implies (#[trigger] t[i] matches FlashEvent::DownloadUpdate(a) ==> a
        <= n) by {
        if i < s.len() {
            assert(t[i] == s[i]);
        } else {
            assert(t[i] == e);
        }
    }
    if exists|i: int| 0 <= i < t.len() && #[trigger] t[i] is DownloadUpdate {
        let i = choose|i: int| 0 <= i < t.len() && #[trigger] t[i] is DownloadUpdate;
        assert(t[i] == s[i]);
        assert(exists|k: int| 0 <= k < s.len() && #[trigger] s[k] is DownloadUpdate);
        let k = choose|k: int| 0 <= k < s.len() && #[trigger] s[k] == FlashEvent::DownloadUpdate(n);
        assert(t[k] == FlashEvent::DownloadUpdate(n));
    }
}

/// Appending a progress report of `n` cumulative bytes, when everything
/// logged is still in the download stages and bounded by `m <= n`, keeps
/// the log ordered and monotone and makes `n` the report it closes at.
proof fn lemma_log_push_update(s: Seq<FlashEvent>, m: usize, n: usize)
    requires
        events_ordered(s),
        updates_monotone(s),
        updates_bounded(s, m),
        m <= n,
        forall|i: int| 0 <= i < s.len() ==> event_stage(#[trigger] s[i]) <= 1,
    ensures
        events_ordered(s.push(FlashEvent::DownloadUpdate(n))),
        updates_monotone(s.push(FlashEvent::DownloadUpdate(n))),
        updates_bounded(s.push(FlashEvent::DownloadUpdate(n)), n),
        updates_reach(s.push(FlashEvent::DownloadUpdate(n)), n),
{
    let e = FlashEvent::DownloadUpdate(n);
    let t = s.push(e);
    assert forall|i: int, j: int|
        #![trigger t[i], t[j]]
        0 <= i < j < t.len() implies event_stage(t[i]) <= event_stage(t[j]) by {
        if j < s.len() {
            assert(t[i] == s[i] && t[j] == s[j]);
        } else {
            assert(t[i] == s[i] && t[j] == e);
        }
    }
    assert forall|i: int, j: int|
        #![trigger t[i], t[j]]
        0 <= i < j < t.len() implies (t[i] matches FlashEvent::DownloadUpdate(a) ==> (t[j] matches
        FlashEvent::DownloadUpdate(b) ==> a <= b)) by {
        if j < s.len() {
            assert(t[i] == s[i] && t[j] == s[j]);
        } else {
            assert(t[i] == s[i] && t[j] == e);
        }
    }
    assert forall|i: int|
        0 <= i < t.len() implies (#[trigger] t[i] matches FlashEvent::DownloadUpdate(a) ==> a
        <= n) by {
        if i < s.len() {
            assert(t[i] == s[i]);
        } else {
            assert(t[i] == e);
        }
    }
    assert(t[s.len() as int] == FlashEvent::DownloadUpdate(n));
}

/// Where a fetch-pipeline run stands.
#[derive(Clone, Copy, Debug, PartialEq, Eq, Structural)]
pub enum UpdatePhase {
    /// Response bytes are being streamed into the cache file.
    Downloading,
    /// The body was written in full; the file must be rewound.
    Downloaded,
    /// The file is back at its start and its bytes may be verified.
    ReadyToVerify,
    /// Verification passed (or no checksum was advertised); the file
    /// must be rewound again.
    Verified,
    /// The file is back at its start and may be handed to installation.
    ReadyToInstall,
    /// The installation request was produced.
    Installing,
    /// Verification failed; the run is over.
    Failed,
}

/// One fetch-pipeline run for a single release.
///
/// The ghost `events` field logs every lifecycle event handed out, so
/// each method's contract can speak about the whole emitted sequence:
/// exactly one `DownloadInitiate` and one `DownloadComplete` per fetch,
/// cumulative progress counts that never decrease and end at the total
/// bytes written, and stages that never run backwards.
pub struct UpdateRun {
    /// Where the run stands.
    pub phase: UpdatePhase,
    /// The payload size the release advertised.
    pub total_size: u64,
    /// Cumulative bytes reported written so far.
    pub bytes_seen: usize,
    /// Every event handed out so far, in order.
    pub events: Ghost<Seq<FlashEvent>>,
}

impl UpdateRun {
    /// The run's invariant: the event log is well-formed for its phase.
    pub open spec fn wf(self) -> bool {
        let ev = self.events@;
        &&& ev.len() >= 1
        &&& ev[0] == FlashEvent::DownloadInitiate(self.total_size)
        &&& events_ordered(ev)
        &&& updates_monotone(ev)
        &&& updates_bounded(ev, self.bytes_seen)
        &&& updates_reach(ev, self.bytes_seen)
        &&& count_stage(ev, 0) == 1
        &&& match self.phase {
            UpdatePhase::Downloading => count_stage(ev, 2) == 0 && count_stage(ev, 3) == 0
                && count_stage(ev, 4) == 0,
            UpdatePhase::Downloaded | UpdatePhase::ReadyToVerify => count_stage(ev, 2) == 1
                && count_stage(ev, 3) == 0 && count_stage(ev, 4) == 0,
            UpdatePhase::Verified | UpdatePhase::ReadyToInstall => count_stage(ev, 2) == 1
                && count_stage(ev, 3) == 1 && count_stage(ev, 4) == 0,
            UpdatePhase::Installing => count_stage(ev, 2) == 1 && count_stage(ev, 3) == 1
                && count_stage(ev, 4) == 1,
            UpdatePhase::Failed => true,
        }
    }

    /// Starts a fetch run; the returned event opens the download with the
    /// advertised total size and is the only `DownloadInitiate` the run
    /// will ever emit.
    pub fn begin_fetch(total_size: u64) -> (r: (UpdateRun, FlashEvent))
        ensures
            r.0.wf(),
            r.0.phase == UpdatePhase::Downloading,
            r.0.total_size == total_size,
            r.0.bytes_seen == 0,
            r.1 == FlashEvent::DownloadInitiate(total_size),
            r.0.events@ == seq![r.1],
    {
        let ev = FlashEvent::DownloadInitiate(total_size);
        let run = UpdateRun {
            phase: UpdatePhase::Downloading,
            total_size,
            bytes_seen: 0,
            events: Ghost(Seq::empty().push(ev)),
        };
        proof {
            lemma_count_stage_push(Seq::empty(), ev, 0);
            lemma_count_stage_push(Seq::empty(), ev, 2);
            lemma_count_stage_push(Seq::empty(), ev, 3);
            lemma_count_stage_push(Seq::empty(), ev, 4);
        }
        (run, ev)
    }

    /// Accounts for one chunk written to the cache file; the returned
    /// event reports the new cumulative count, which never decreases.
    pub fn chunk_written(&mut self, n: usize) -> (ev: FlashEvent)
        requires
            old(self).wf(),
            old(self).phase == UpdatePhase::Downloading,
            old(self).bytes_seen + n <= usize::MAX,
        ensures
            final(self).wf(),
            final(self).phase == UpdatePhase::Downloading,
            final(self).total_size == old(self).total_size,
            final(self).bytes_seen == old(self).bytes_seen + n,
            ev == FlashEvent::DownloadUpdate(final(self).bytes_seen),
            final(self).events@ == old(self).events@.push(ev),
    {
        self.bytes_seen = self.bytes_seen + n;
        let ev = FlashEvent::DownloadUpdate(self.bytes_seen);
        proof {
            let s = self.events@;
            lemma_count_stage_zero(s, 2);
            lemma_count_stage_zero(s, 3);
            lemma_count_stage_zero(s, 4);
            assert forall|i: int| 0 <= i < s.len() implies event_stage(#[trigger] s[i]) <= 1 by {
                assert(event_stage(s[i]) != 2);
                assert(event_stage(s[i]) != 3);
                assert(event_stage(s[i]) != 4);
            }
            lemma_log_push_update(s, old(self).bytes_seen, self.bytes_seen);
            lemma_count_stage_push(s, ev, 0);
            lemma_count_stage_push(s, ev, 2);
            lemma_count_stage_push(s, ev, 3);
            lemma_count_stage_push(s, ev, 4);
        }
        self.events = Ghost(self.events@.push(ev));
        ev
    }

    /// Closes the download; the returned event is the only
    /// `DownloadComplete` of the run, and at this point the log holds
    /// exactly one `DownloadInitiate`, monotone progress reports whose
    /// last equals the total bytes written, and exactly one
    /// `DownloadComplete`.
    pub fn download_finished(&mut self) -> (ev: FlashEvent)
        requires
            old(self).wf(),
            old(self).phase == UpdatePhase::Downloading,
        ensures
            final(self).wf(),
            final(self).phase == UpdatePhase::Downloaded,
            final(self).total_size == old(self).total_size,
            final(self).bytes_seen == old(self).bytes_seen,
            ev == FlashEvent::DownloadComplete,
            final(self).events@ == old(self).events@.push(ev),
            count_stage(final(self).events@, 0) == 1,
            count_stage(final(self).events@, 2) == 1,
            updates_monotone(final(self).events@),
            updates_bounded(final(self).events@, final(self).bytes_seen),
            updates_reach(final(self).events@, final(self).bytes_seen),
    {
        let ev = FlashEvent::DownloadComplete;
        proof {
            let s = self.events@;
            lemma_count_stage_zero(s, 2);
            lemma_count_stage_zero(s, 3);
            lemma_count_stage_zero(s, 4);
            assert forall|i: int|
                0 <= i < s.len() implies event_stage(#[trigger] s[i]) <= event_stage(ev) by {
                assert(event_stage(s[i]) != 2);
                assert(event_stage(s[i]) != 3);
                assert(event_stage(s[i]) != 4);
            }
            lemma_log_push_non_update(s, ev, old(self).bytes_seen);
            lemma_count_stage_push(s, ev, 0);
            lemma_count_stage_push(s, ev, 2);
            lemma_count_stage_push(s, ev, 3);
            lemma_count_stage_push(s, ev, 4);
        }
        self.events = Ghost(self.events@.push(ev));
        self.phase = UpdatePhase::Downloaded;
        ev
    }

    /// Records that the application seeked the cache file back to offset
    /// zero: once after the download (before verification) and once more
    /// after verification (before installation). The run only reaches
    /// installation through both rewinds.
    pub fn mark_rewound(&mut self)
        requires
            old(self).wf(),
            old(self).phase == UpdatePhase::Downloaded || old(self).phase
                == UpdatePhase::Verified,
        ensures
            final(self).wf(),
            old(self).phase == UpdatePhase::Downloaded ==> final(self).phase
                == UpdatePhase::ReadyToVerify,
            old(self).phase == UpdatePhase::Verified ==> final(self).phase
                == UpdatePhase::ReadyToInstall,
            final(self).total_size == old(self).total_size,
            final(self).bytes_seen == old(self).bytes_seen,
            final(self).events@ == old(self).events@,
    {
        match self.phase {
            UpdatePhase::Downloaded => {
                self.phase = UpdatePhase::ReadyToVerify;
            },
            _ => {
                self.phase = UpdatePhase::ReadyToInstall;
            },
        }
    }

    /// Verifies the downloaded bytes against the release's checksums.
    ///
    /// The returned event is emitted before the outcome is known. The run
    /// proceeds exactly when `spec_verification_passes` holds — in
    /// particular always when the release advertises no checksum — and a
    /// mismatch aborts the run with `FirmwareChecksumMismatch`, an error
    /// distinct from every transport failure.
    pub fn verify_download(&mut self, data: &Vec<u8>, checksums: &Vec<Checksum>) -> (r: (
        FlashEvent,
        Result<(), Error>,
    ))
        requires
            old(self).wf(),
            old(self).phase == UpdatePhase::ReadyToVerify,
        ensures
            final(self).wf(),
            r.0 == FlashEvent::VerifyingChecksum,
            final(self).events@ == old(self).events@.push(r.0),
            final(self).total_size == old(self).total_size,
            final(self).bytes_seen == old(self).bytes_seen,
            r.1 is Ok <==> spec_verification_passes(data@, checksums@),
            r.1 is Ok ==> final(self).phase == UpdatePhase::Verified,
            r.1 is Err ==> r.1 == Err::<(), Error>(Error::FirmwareChecksumMismatch)
                && final(self).phase == UpdatePhase::Failed,
    {
        let ev = FlashEvent::VerifyingChecksum;
        proof {
            let s = self.events@;
            lemma_count_stage_zero(s, 3);
            lemma_count_stage_zero(s, 4);
            assert forall|i: int|
                0 <= i < s.len() implies event_stage(#[trigger] s[i]) <= event_stage(ev) by {
                assert(event_stage(s[i]) != 3);
                assert(event_stage(s[i]) != 4);
            }
            lemma_log_push_non_update(s, ev, old(self).bytes_seen);
            lemma_count_stage_push(s, ev, 0);
            lemma_count_stage_push(s, ev, 2);
            lemma_count_stage_push(s, ev, 3);
            lemma_count_stage_push(s, ev, 4);
        }
        self.events = Ghost(self.events@.push(ev));
        let outcome = verify_payload(data, checksums);
        match &outcome {
            Ok(_) => {
                self.phase = UpdatePhase::Verified;
            },
            Err(_) => {
                self.phase = UpdatePhase::Failed;
            },
        }
        (ev, outcome)
    }

    /// Produces the installation request, applying the device's
    /// offline-only constraint to the caller's flags. The returned event
    /// closes the run's lifecycle: the final log holds exactly one event
    /// of each non-progress stage, in order, with monotone progress
    /// counts ending at the total bytes written.
    pub fn hand_off(
        &mut self,
        device: &Device,
        reason: &str,
        filename: &Vec<u8>,
        flags: InstallFlags,
    ) -> (r: (FlashEvent, InstallRequest))
        requires
            old(self).wf(),
            old(self).phase == UpdatePhase::ReadyToInstall,
        ensures
            final(self).wf(),
            final(self).phase == UpdatePhase::Installing,
            final(self).bytes_seen == old(self).bytes_seen,
            r.0 == FlashEvent::FlashInProgress,
            final(self).events@ == old(self).events@.push(r.0),
            r.1.device_id@ == device.device_id@,
            r.1.reason@ == reason@,
            r.1.filename@ == filename@,
            options_match(
                r.1.options@,
                spec_flag_options(spec_effective_flags(flags, device.only_offline)),
            ),
            device.only_offline ==> r.1.options@.len() > 0 && r.1.options@[0].0@ == "offline"@
                && r.1.options@[0].1,
            events_ordered(final(self).events@),
            updates_monotone(final(self).events@),
            updates_bounded(final(self).events@, final(self).bytes_seen),
            updates_reach(final(self).events@, final(self).bytes_seen),
            count_stage(final(self).events@, 0) == 1,
            count_stage(final(self).events@, 2) == 1,
            count_stage(final(self).events@, 3) == 1,
            count_stage(final(self).events@, 4) == 1,
    {
        let ev = FlashEvent::FlashInProgress;
        proof {
            let s = self.events@;
            lemma_count_stage_zero(s, 4);
            assert forall|i: int|
                0 <= i < s.len() implies event_stage(#[trigger] s[i]) <= event_stage(ev) by {
                assert(event_stage(s[i]) != 4);
            }
            lemma_log_push_non_update(s, ev, old(self).bytes_seen);
            lemma_count_stage_push(s, ev, 0);
            lemma_count_stage_push(s, ev, 2);
            lemma_count_stage_push(s, ev, 3);
            lemma_count_stage_push(s, ev, 4);
        }
        self.events = Ghost(self.events@.push(ev));
        self.phase = UpdatePhase::Installing;
        let request = install_request_for_device(device, reason, filename, flags);
        (ev, request)
    }
}

/// The cache file name a fetch URI maps to: the lowercase hex rendering
/// of the URI's SHA-256 digest, so the same URI always reuses the same
/// cache file. Every byte is a hex digit, so the name never escapes the
/// cache directory it is joined to.
pub fn cache_file_name(uri: &Vec<u8>) -> (r: Vec<u8>)
    ensures
        r@ == hex_bytes(sha256_of(uri@)),
        r@.len() == 64,
        forall|i: int| 0 <= i < r@.len() ==> (48 <= #[trigger] r@[i] <= 57 || 97 <= r@[i] <= 102),
{
    let digest = sha256_digest(uri);
    let name = to_hex_lower(&digest);
    proof {
        lemma_hex_bytes_len(sha256_of(uri@));
        lemma_hex_bytes_digits(sha256_of(uri@));
    }
    name
}

} // verus!
