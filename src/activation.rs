use vstd::prelude::*;

verus! {

/// One of the two mount points that subscribers can open.
#[derive(Clone, Copy, Debug, PartialEq, Eq, Structural)]
pub enum StreamKind {
    Color,
    Infrared,
}

/// Live subscriber counts per stream, read as "should this stream capture now?".
pub struct ActivationGate {
    pub color_sessions: u64,
    pub infra_sessions: u64,
}

/// Count after a session start: one more, held at the largest count.
pub open spec fn count_after_start(n: u64) -> u64 {
    if n == u64::MAX { n } else { (n + 1) as u64 }
}

/// Count after a session end: one fewer, never below zero.
pub open spec fn count_after_end(n: u64) -> u64 {
    if n == 0 { 0 } else { (n - 1) as u64 }
}

impl ActivationGate {
    pub open spec fn count_of(&self, stream: StreamKind) -> u64 {
        match stream {
            StreamKind::Color => self.color_sessions,
            StreamKind::Infrared => self.infra_sessions,
        }
    }

    /// A gate with no subscribers on either stream.
    pub fn new() -> (r: Self)
        ensures
            r.color_sessions == 0,
            r.infra_sessions == 0,
    {
        ActivationGate { color_sessions: 0, infra_sessions: 0 }
    }

    /// Records that a subscriber session opened on `stream`.
    pub fn session_started(&mut self, stream: StreamKind) -> (r: u64)
        ensures
            final(self).count_of(stream) == count_after_start(old(self).count_of(stream)),
            stream == StreamKind::Color ==> final(self).infra_sessions == old(self).infra_sessions,
            stream == StreamKind::Infrared ==> final(self).color_sessions == old(self).color_sessions,
            r == final(self).count_of(stream),
    {
        match stream {
            StreamKind::Color => {
                self.color_sessions = self.color_sessions.saturating_add(1);
                self.color_sessions
            },
            StreamKind::Infrared => {
                self.infra_sessions = self.infra_sessions.saturating_add(1);
                self.infra_sessions
            },
        }
    }

    /// Records that a subscriber session closed on `stream`; an unmatched end
    /// leaves the count at zero.
    pub fn session_ended(&mut self, stream: StreamKind) -> (r: u64)
        ensures
            final(self).count_of(stream) == count_after_end(old(self).count_of(stream)),
            stream == StreamKind::Color ==> final(self).infra_sessions == old(self).infra_sessions,
            stream == StreamKind::Infrared ==> final(self).color_sessions == old(self).color_sessions,
            r == final(self).count_of(stream),
    {
        match stream {
            StreamKind::Color => {
                self.color_sessions = self.color_sessions.saturating_sub(1);
                self.color_sessions
            },
            StreamKind::Infrared => {
                self.infra_sessions = self.infra_sessions.saturating_sub(1);
                self.infra_sessions
            },
        }
    }

    /// Whether `stream` has at least one live subscriber.
    pub fn is_active(&self, stream: StreamKind) -> (r: bool)
        ensures
            r == (self.count_of(stream) > 0),
    {
        match stream {
            StreamKind::Color => self.color_sessions > 0,
            StreamKind::Infrared => self.infra_sessions > 0,
        }
    }

    /// Whether color capture should run.
    pub fn is_color_active(&self) -> (r: bool)
        ensures
            r == (self.color_sessions > 0),
    {
        self.color_sessions > 0
    }

    /// Whether infrared capture should run.
    pub fn is_infra_active(&self) -> (r: bool)
        ensures
            r == (self.infra_sessions > 0),
    {
        self.infra_sessions > 0
    }

    /// Whether any stream has a subscriber; gates hardware that both streams
    /// share, such as the microphone.
    pub fn is_capture_active(&self) -> (r: bool)
        ensures
            r == (self.color_sessions > 0 || self.infra_sessions > 0),
    {
        self.is_color_active() || self.is_infra_active()
    }
}

/// Applies `k` session starts to a count.
pub open spec fn starts(n: u64, k: nat) -> u64
    decreases k,
{
    if k == 0 { n } else { count_after_start(starts(n, (k - 1) as nat)) }
}

/// Applies `k` session ends to a count.
pub open spec fn ends(n: u64, k: nat) -> u64
    decreases k,
{
    if k == 0 { n } else { count_after_end(ends(n, (k - 1) as nat)) }
}

/// Ending more sessions than were open never takes a count below zero: any
/// number of ends from zero leaves zero.
pub proof fn lemma_ends_from_zero(k: nat)
    ensures
        ends(0, k) == 0,
    decreases k,
{
    if k > 0 {
        lemma_ends_from_zero((k - 1) as nat);
    }
}

/// Starts followed by as many ends return a count to where it was, as long as
/// the count does not reach its ceiling; from zero the stream is inactive again.
pub proof fn lemma_paired_sessions_restore(n: u64, k: nat)
    requires
        n as int + k <= u64::MAX as int,
    ensures
        ends(starts(n, k), k) == n,
    decreases k,
{
    if k > 0 {
        lemma_starts_add(n, (k - 1) as nat);
        lemma_starts_add(n, k);
        assert(starts(n, k) == starts(n, (k - 1) as nat) + 1);
        lemma_paired_sessions_restore(n, (k - 1) as nat);
        lemma_ends_after_start(starts(n, (k - 1) as nat), (k - 1) as nat);
    }
}

proof fn lemma_starts_add(n: u64, k: nat)
    requires
        n as int + k <= u64::MAX as int,
    ensures
        starts(n, k) == n + k,
    decreases k,
{
    if k > 0 {
        lemma_starts_add(n, (k - 1) as nat);
    }
}

proof fn lemma_ends_after_start(m: u64, k: nat)
    requires
        m < u64::MAX,
    ensures
        ends(count_after_start(m), k + 1) == ends(m, k),
    decreases k,
{
    if k > 0 {
        lemma_ends_after_start(m, (k - 1) as nat);
        assert(ends(count_after_start(m), k + 1) == count_after_end(ends(count_after_start(m), k)));
    } else {
        assert(ends(count_after_start(m), 0) == count_after_start(m));
        assert(ends(count_after_start(m), 1) == count_after_end(ends(count_after_start(m), 0)));
    }
}

} // verus!
