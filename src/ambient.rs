use vstd::prelude::*;

use crate::error::GlowError;
use crate::sampler::{sample, sample_ok, sampled, Algorithm, Frame, Region};

verus! {

/// Where a capture session stands in the compositor's capture protocol.
#[derive(Clone, Copy, Debug, PartialEq, Eq, Structural)]
pub enum Phase {
    /// No capture outstanding.
    Idle,
    /// A capture was requested; the compositor has not offered a buffer yet.
    AwaitingOffer,
    /// A buffer was handed to the compositor; it has not been filled yet.
    AwaitingReady,
    /// A fatal error ended the session.
    Stopped,
}

/// The decisions of screen capture: when to request a frame, which buffer is
/// in flight, when it must be released, and the latest colours taken from it.
///
/// Buffers are named by tickets. `offer` hands out a fresh ticket for the
/// caller to allocate a buffer under; `ready` and `failed` hand it back for
/// the caller to release. At most one ticket is outstanding at a time, and a
/// ticket is never handed out twice.
pub struct CaptureSession {
    phase: Phase,
    regions: Vec<Region>,
    algorithm: Algorithm,
    pending: Option<u64>,
    next_ticket: u64,
    released: Ghost<Set<u64>>,
    latest: Option<Vec<u8>>,
    failures: u32,
    max_failures: u32,
}

impl CaptureSession {
    pub closed spec fn phase(&self) -> Phase {
        self.phase
    }

    /// The ticket of the buffer the compositor holds, if any.
    pub closed spec fn pending(&self) -> Option<u64> {
        self.pending
    }

    /// The ticket that the next offer hands out.
    pub closed spec fn next_ticket(&self) -> u64 {
        self.next_ticket
    }

    /// Tickets handed back for release so far.
    pub closed spec fn released(&self) -> Set<u64> {
        self.released@
    }

    /// The colours of the last frame extracted, if any.
    pub closed spec fn latest(&self) -> Option<Seq<u8>> {
        match self.latest {
            Some(c) => Some(c@),
            None => None,
        }
    }

    pub closed spec fn regions(&self) -> Seq<Region> {
        self.regions@
    }

    pub closed spec fn algorithm(&self) -> Algorithm {
        self.algorithm
    }

    /// Failed captures since the last frame that arrived.
    pub closed spec fn failures(&self) -> u32 {
        self.failures
    }

    /// Failed captures in a row that the session tolerates.
    pub closed spec fn max_failures(&self) -> u32 {
        self.max_failures
    }

    pub closed spec fn wf(&self) -> bool {
        &&& (self.phase == Phase::AwaitingReady <==> self.pending is Some)
        &&& (self.pending matches Some(t) ==> t < self.next_ticket && !self.released@.contains(t))
        &&& forall|t: u64| #[trigger] self.released@.contains(t) ==> t < self.next_ticket
        &&& (self.latest matches Some(c) ==> c@.len() == 3 * self.regions@.len())
        &&& self.failures <= self.max_failures
    }

    /// An idle session over `regions`, tolerating `max_failures` failed
    /// captures in a row.
    pub fn new(algorithm: Algorithm, regions: Vec<Region>, max_failures: u32) -> (s: Self)
        ensures
            s.wf(),
            s.phase() == Phase::Idle,
            s.pending() is None,
            s.next_ticket() == 0,
            s.released() == Set::<u64>::empty(),
            s.latest() is None,
            s.regions() == regions@,
            s.algorithm() == algorithm,
            s.failures() == 0,
            s.max_failures() == max_failures,
    {
        CaptureSession {
            phase: Phase::Idle,
            regions,
            algorithm,
            pending: None,
            next_ticket: 0,
            released: Ghost(Set::empty()),
            latest: None,
            failures: 0,
            max_failures,
        }
    }

    /// Where the session stands.
    pub fn current_phase(&self) -> (p: Phase)
        ensures
            p == self.phase(),
    {
        self.phase
    }

    /// The ticket of the buffer the compositor holds, if any.
    pub fn pending_ticket(&self) -> (t: Option<u64>)
        ensures
            t == self.pending(),
    {
        self.pending
    }

    /// Starts a capture when none is outstanding. Returns whether the caller
    /// must now ask the compositor for a frame.
    pub fn request(&mut self) -> (issue: bool)
        requires
            old(self).wf(),
        ensures
            final(self).wf(),
            issue == (old(self).phase() == Phase::Idle),
            final(self).phase() == (if issue {
                Phase::AwaitingOffer
            } else {
                old(self).phase()
            }),
            final(self).pending() == old(self).pending(),
            final(self).next_ticket() == old(self).next_ticket(),
            final(self).released() == old(self).released(),
            final(self).latest() == old(self).latest(),
            final(self).regions() == old(self).regions(),
            final(self).algorithm() == old(self).algorithm(),
            final(self).failures() == old(self).failures(),
            final(self).max_failures() == old(self).max_failures(),
    {
        if self.phase == Phase::Idle {
            self.phase = Phase::AwaitingOffer;
            true
        } else {
            false
        }
    }

    /// The compositor offered a buffer format: returns the fresh ticket under
    /// which the caller allocates the buffer and hands it to the compositor.
    ///
    /// Fails with `UnexpectedEvent`, changing nothing, unless a capture was
    /// requested and no buffer is in flight; with `CaptureUnavailable`,
    /// stopping the session, once every ticket has been used.
    pub fn offer(&mut self) -> (r: Result<u64, GlowError>)
        requires
            old(self).wf(),
        ensures
            final(self).wf(),
            final(self).regions() == old(self).regions(),
            final(self).algorithm() == old(self).algorithm(),
            final(self).latest() == old(self).latest(),
            final(self).released() == old(self).released(),
            final(self).failures() == old(self).failures(),
            final(self).max_failures() == old(self).max_failures(),
            old(self).phase() != Phase::AwaitingOffer ==> r == Err::<u64, GlowError>(
                GlowError::UnexpectedEvent,
            ) && *final(self) == *old(self),
            old(self).phase() == Phase::AwaitingOffer && old(self).next_ticket() == u64::MAX
                ==> r == Err::<u64, GlowError>(GlowError::CaptureUnavailable) && final(self).phase()
                == Phase::Stopped && final(self).pending() is None && final(self).next_ticket()
                == old(self).next_ticket(),
            old(self).phase() == Phase::AwaitingOffer && old(self).next_ticket() < u64::MAX
                ==> old(self).pending() is None && r == Ok::<u64, GlowError>(old(self).next_ticket())
                && final(self).phase() == Phase::AwaitingReady && final(self).pending() == Some(old(self).next_ticket())
                && final(self).next_ticket() == old(self).next_ticket() + 1
                && !old(self).released().contains(old(self).next_ticket()),
    {
        if self.phase != Phase::AwaitingOffer {
            return Err(GlowError::UnexpectedEvent);
        }
        if self.next_ticket == u64::MAX {
            self.phase = Phase::Stopped;
            return Err(GlowError::CaptureUnavailable);
        }
        let t = self.next_ticket;
        self.pending = Some(t);
        self.next_ticket = t + 1;
        self.phase = Phase::AwaitingReady;
        Ok(t)
    }

    /// The compositor filled the buffer in flight, whose pixels are `frame`:
    /// takes the colours of the regions from it and returns the buffer's
    /// ticket for release. Nothing is then outstanding.
    ///
    /// Fails with `UnexpectedEvent`, changing nothing, unless a buffer is in
    /// flight; with `OutOfBounds`, releasing the buffer and stopping the
    /// session, when the regions do not fit the frame.
    pub fn ready(&mut self, frame: &Frame) -> (r: Result<u64, GlowError>)
        requires
            old(self).wf(),
        ensures
            final(self).wf(),
            final(self).regions() == old(self).regions(),
            final(self).algorithm() == old(self).algorithm(),
            final(self).next_ticket() == old(self).next_ticket(),
            final(self).max_failures() == old(self).max_failures(),
            old(self).phase() != Phase::AwaitingReady ==> r == Err::<u64, GlowError>(
                GlowError::UnexpectedEvent,
            ) && *final(self) == *old(self),
            old(self).phase() == Phase::AwaitingReady ==> {
                &&& final(self).pending() is None
                &&& final(self).released() == old(self).released().insert(
                    old(self).pending()->Some_0,
                )
                &&& final(self).failures() == 0
                &&& if sample_ok(
                    frame.width as int,
                    frame.height as int,
                    frame.data@,
                    old(self).regions(),
                ) {
                    &&& r == Ok::<u64, GlowError>(old(self).pending()->Some_0)
                    &&& final(self).phase() == Phase::Idle
                    &&& final(self).latest() == Some(
                        sampled(
                            frame.data@,
                            frame.width as int,
                            old(self).regions(),
                            old(self).algorithm(),
                        ),
                    )
                } else {
                    &&& r == Err::<u64, GlowError>(GlowError::OutOfBounds)
                    &&& final(self).phase() == Phase::Stopped
                    &&& final(self).latest() == old(self).latest()
                }
            },
    {
        let t = match self.pending {
            Some(t) => t,
            None => {
                return Err(GlowError::UnexpectedEvent);
            },
        };
        self.pending = None;
        self.released = Ghost(self.released@.insert(t));
        self.failures = 0;
        match sample(frame, self.regions.as_slice(), self.algorithm) {
            Ok(colors) => {
                self.latest = Some(colors);
                self.phase = Phase::Idle;
                Ok(t)
            },
            Err(e) => {
                self.phase = Phase::Stopped;
                Err(e)
            },
        }
    }

    /// The compositor failed the outstanding capture: returns the ticket of
    /// the buffer in flight, if any, for release, and goes back to idle so that
    /// the next request retries.
    ///
    /// Fails with `UnexpectedEvent`, changing nothing, unless a capture is
    /// outstanding; with `CaptureUnavailable`, stopping the session, when
    /// this failure is one more in a row than the session tolerates.
    pub fn failed(&mut self) -> (r: Result<Option<u64>, GlowError>)
        requires
            old(self).wf(),
        ensures
            final(self).wf(),
            final(self).regions() == old(self).regions(),
            final(self).algorithm() == old(self).algorithm(),
            final(self).next_ticket() == old(self).next_ticket(),
            final(self).latest() == old(self).latest(),
            final(self).max_failures() == old(self).max_failures(),
            old(self).phase() != Phase::AwaitingOffer && old(self).phase() != Phase::AwaitingReady
                ==> r == Err::<Option<u64>, GlowError>(GlowError::UnexpectedEvent) && *final(self)
                == *old(self),
            old(self).phase() == Phase::AwaitingOffer || old(self).phase() == Phase::AwaitingReady
                ==> {
                &&& final(self).pending() is None
                &&& final(self).released() == (match old(self).pending() {
                    Some(t) => old(self).released().insert(t),
                    None => old(self).released(),
                })
                &&& if old(self).failures() < old(self).max_failures() {
                    &&& r == Ok::<Option<u64>, GlowError>(old(self).pending())
                    &&& final(self).phase() == Phase::Idle
                    &&& final(self).failures() == old(self).failures() + 1
                } else {
                    &&& r == Err::<Option<u64>, GlowError>(GlowError::CaptureUnavailable)
                    &&& final(self).phase() == Phase::Stopped
                    &&& final(self).failures() == old(self).failures()
                }
            },
    {
        if self.phase != Phase::AwaitingOffer && self.phase != Phase::AwaitingReady {
            return Err(GlowError::UnexpectedEvent);
        }
        let t = self.pending;
        if let Some(p) = t {
            self.released = Ghost(self.released@.insert(p));
        }
        self.pending = None;
        if self.failures < self.max_failures {
            self.failures = self.failures + 1;
            self.phase = Phase::Idle;
            Ok(t)
        } else {
            self.phase = Phase::Stopped;
            Err(GlowError::CaptureUnavailable)
        }
    }

    /// The colours of the last frame extracted; all zero, one triple per
    /// region, before the first.
    pub fn colors(&self) -> (c: Vec<u8>)
        requires
            self.wf(),
        ensures
            c@ == (match self.latest() {
                Some(l) => l,
                None => Seq::new(3 * self.regions().len(), |i: int| 0u8),
            }),
            c@.len() == 3 * self.regions().len(),
    {
        match &self.latest {
            Some(l) => vstd::slice::slice_to_vec(l.as_slice()),
            None => {
                let n = self.regions.len();
                let mut out: Vec<u8> = Vec::new();
                let mut i: usize = 0;
                while i < n
                    invariant
                        i <= n,
                        n == self.regions@.len(),
                        out@ == Seq::new(3 * i as nat, |j: int| 0u8),
                    decreases n - i,
                {
                    out.push(0);
                    out.push(0);
                    out.push(0);
                    assert(out@ =~= Seq::new(3 * (i + 1) as nat, |j: int| 0u8));
                    i = i + 1;
                }
                out
            },
        }
    }
}

/// A buffer is in flight exactly while the session awaits the compositor's
/// copy: at most one at a time, and none in any other phase.
pub proof fn lemma_pending_iff_awaiting_ready(s: CaptureSession)
    requires
        s.wf(),
    ensures
        s.pending() is Some <==> s.phase() == Phase::AwaitingReady,
        s.pending() matches Some(t) ==> t < s.next_ticket() && !s.released().contains(t),
{
}

/// Once a frame has been extracted the session holds no buffer, and every
/// ticket it has handed back lies below the one the next offer hands out, so
/// no released buffer is ever named again.
pub proof fn lemma_idle_holds_nothing(s: CaptureSession)
    requires
        s.wf(),
        s.phase() == Phase::Idle,
    ensures
        s.pending() is None,
        forall|t: u64| #[trigger] s.released().contains(t) ==> t < s.next_ticket(),
        !s.released().contains(s.next_ticket()),
{
}

} // verus!
