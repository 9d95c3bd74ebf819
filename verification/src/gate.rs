//! The confirmation gate: the safety checkpoint between scanning and
//! sweeping.  Nothing destructive runs without resolved consent, and a
//! declined response ends the run with a distinct cancelled outcome.

use vstd::prelude::*;
use crate::text::{spec_trim, chars_of, trim_bounds_in};
use crate::sweep::{SweepMode, SweepStep, action_for, apply_plan, plan_sweep};

verus! {

/// Whether a typed response gives consent: `yes` or `y`, in any letter
/// case, with surrounding whitespace ignored.  This is the single source
/// of truth for the affirmative tokens.
pub open spec fn spec_affirmative(s: Seq<char>) -> bool {
    let t = spec_trim(s);
    ||| (t.len() == 1 && (t[0] == 'y' || t[0] == 'Y'))
    ||| (t.len() == 3 && (t[0] == 'y' || t[0] == 'Y') && (t[1] == 'e' || t[1] == 'E') && (t[2]
        == 's' || t[2] == 'S'))
}

/// Whether `s` is an affirmative confirmation response.
pub fn affirmative_response(s: &str) -> (r: bool)
    ensures
        r == spec_affirmative(s@),
{
    let v = chars_of(s);
    let n = v.len();
    let (lo, hi) = trim_bounds_in(&v, 0, n);
    proof {
        assert(v@.subrange(0, n as int) =~= v@);
    }
    let ghost t = spec_trim(s@);
    if hi - lo == 1 {
        let c = v[lo];
        proof {
            assert(t[0] == v@[lo as int]);
        }
        c == 'y' || c == 'Y'
    } else if hi - lo == 3 {
        let c0 = v[lo];
        let c1 = v[lo + 1];
        let c2 = v[lo + 2];
        proof {
            assert(t[0] == v@[lo as int]);
            assert(t[1] == v@[lo + 1]);
            assert(t[2] == v@[lo + 2]);
        }
        (c0 == 'y' || c0 == 'Y') && (c1 == 'e' || c1 == 'E') && (c2 == 's' || c2 == 'S')
    } else {
        false
    }
}

/// How a run proceeds once the scan is known.
#[derive(Clone, Copy, Debug, PartialEq, Eq, Structural)]
pub enum RunDecision {
    /// No file matched; there is nothing to confirm or sweep.
    NothingMatched,
    /// The sweep may run.
    Sweep,
    /// The user declined; nothing on disk may be touched.
    Cancelled,
}

/// Whether the checkpoint is cleared: a dry run needs no consent, an
/// explicit bypass flag gives it, and otherwise only an affirmative
/// response does (no response solicited means no consent).
pub open spec fn spec_proceeds(dry_run: bool, bypass: bool, response: Option<Seq<char>>) -> bool {
    dry_run || bypass || (match response {
        Some(r) => spec_affirmative(r),
        None => false,
    })
}

/// The checkpoint's decision for a finished scan.
pub open spec fn spec_decide(
    files: u64,
    dry_run: bool,
    bypass: bool,
    response: Option<Seq<char>>,
) -> RunDecision {
    if files == 0 {
        RunDecision::NothingMatched
    } else if spec_proceeds(dry_run, bypass, response) {
        RunDecision::Sweep
    } else {
        RunDecision::Cancelled
    }
}

/// The view of an optional response.
pub open spec fn spec_response_view(response: Option<&str>) -> Option<Seq<char>> {
    match response {
        Some(r) => Some(r@),
        None => None,
    }
}

/// Decides the run from the scan's file count, the flags, and the
/// response that was solicited (if any): a scan that matched nothing
/// short-circuits, consent lets the sweep run, anything else cancels.
pub fn decide_run(files: u64, dry_run: bool, bypass: bool, response: Option<&str>) -> (d:
    RunDecision)
    ensures
        d == spec_decide(files, dry_run, bypass, spec_response_view(response)),
{
    if files == 0 {
        RunDecision::NothingMatched
    } else if dry_run || bypass {
        RunDecision::Sweep
    } else {
        match response {
            Some(r) => {
                if affirmative_response(r) {
                    RunDecision::Sweep
                } else {
                    RunDecision::Cancelled
                }
            },
            None => RunDecision::Cancelled,
        }
    }
}

/// The phases of one pipeline run.
#[derive(Clone, Copy, Debug, PartialEq, Eq, Structural)]
pub enum GatePhase {
    /// Nothing has been scanned yet.
    Idle,
    /// The scan finished and found matches; consent is pending.
    Scanned,
    /// Consent was given; the sweep may start.
    Confirmed,
    /// Consent was refused; no sweep will ever start.
    Declined,
    /// The sweep is running.
    Sweeping,
    /// The run is over.
    Done,
}

/// The confirmation gate itself: a state machine whose transitions make
/// it impossible to reach the sweeping phase except through a recorded
/// scan followed by explicit consent.
pub struct Gate {
    pub phase: GatePhase,
    pub files: u64,
    pub bytes: u64,
}

impl Gate {
    /// A fresh gate, before any scan.
    pub fn new() -> (g: Gate)
        ensures
            g.phase is Idle,
    {
        Gate { phase: GatePhase::Idle, files: 0, bytes: 0 }
    }

    /// Records the scan totals.  A scan that matched nothing ends the run
    /// at once — no confirmation is ever solicited for it.
    pub fn record_scan(&mut self, files: u64, bytes: u64)
        requires
            old(self).phase is Idle,
        ensures
            final(self).files == files,
            final(self).bytes == bytes,
            final(self).phase == (if files == 0 {
                GatePhase::Done
            } else {
                GatePhase::Scanned
            }),
    {
        self.files = files;
        self.bytes = bytes;
        self.phase = if files == 0 {
            GatePhase::Done
        } else {
            GatePhase::Scanned
        };
    }

    /// Resolves the pending confirmation from the flags and the response.
    pub fn resolve(&mut self, dry_run: bool, bypass: bool, response: Option<&str>)
        requires
            old(self).phase is Scanned,
        ensures
            final(self).files == old(self).files,
            final(self).bytes == old(self).bytes,
            final(self).phase == (if spec_proceeds(
                dry_run,
                bypass,
                spec_response_view(response),
            ) {
                GatePhase::Confirmed
            } else {
                GatePhase::Declined
            }),
    {
        let proceed = if dry_run || bypass {
            true
        } else {
            match response {
                Some(r) => affirmative_response(r),
                None => false,
            }
        };
        self.phase = if proceed {
            GatePhase::Confirmed
        } else {
            GatePhase::Declined
        };
    }

    /// Starts the sweep.  Only a confirmed gate can take this step.
    pub fn begin_sweep(&mut self)
        requires
            old(self).phase is Confirmed,
        ensures
            final(self).phase is Sweeping,
            final(self).files == old(self).files,
            final(self).bytes == old(self).bytes,
    {
        self.phase = GatePhase::Sweeping;
    }

    /// Ends the run, from the sweep or from a refusal.
    pub fn finish(&mut self)
        requires
            old(self).phase is Sweeping || old(self).phase is Declined,
        ensures
            final(self).phase is Done,
            final(self).files == old(self).files,
            final(self).bytes == old(self).bytes,
    {
        self.phase = GatePhase::Done;
    }
}

/// The steps a run actually executes: the sweep plan when the decision
/// lets
/// it through, and nothing at all otherwise.
pub open spec fn spec_run_plan(d: RunDecision, plan: Seq<SweepStep>) -> Seq<SweepStep> {
    if d is Sweep {
        plan
    } else {
        Seq::empty()
    }
}

/// Lays out what the run executes: the full sweep plan after a `Sweep`
/// decision, and no step at all after any other.
pub fn plan_run(d: &RunDecision, matched: &Vec<String>, mode: &SweepMode) -> (plan: Vec<
    SweepStep,
>)
    ensures
        !(*d is Sweep) ==> plan@.len() == 0,
        *d is Sweep ==> plan@.len() == matched@.len(),
        *d is Sweep ==> forall|i: int|
            0 <= i < plan@.len() ==> (#[trigger] plan@[i]).path@ == matched@[i]@
                && plan@[i].action == action_for(*mode),
{
    match d {
        RunDecision::Sweep => plan_sweep(matched, mode),
        _ => Vec::new(),
    }
}

/// Confirmation gate correctness: when files matched but the checkpoint
/// was
/// neither bypassed nor given an affirmative response, the decision is
/// `Cancelled` and the run executes no step, so the filesystem afterwards
/// is byte-for-byte what it was before.
pub proof fn lemma_declined_gate_touches_nothing(
    fs: Map<Seq<char>, Seq<u8>>,
    files: u64,
    response: Seq<char>,
    plan: Seq<SweepStep>,
)
    requires
        files > 0,
        !spec_affirmative(response),
    ensures
        spec_decide(files, false, false, Some(response)) is Cancelled,
        apply_plan(fs, spec_run_plan(spec_decide(files, false, false, Some(response)), plan))
            == fs,
{
}

} // verus!
