//! The polling decisions: from the outcome of one fetch to what happens next.
use vstd::prelude::*;
use crate::teamcity::Build;

verus! {

/// Milliseconds between two fetches of a build that has not finished.
pub const POLL_INTERVAL_MS: u64 = 1000;

/// Why a fetch of a build failed.
pub enum FetchError {
    /// The request did not complete.
    Request,
    /// The server answered with a status other than success.
    Response { status: u16, body: String },
    /// The body could not be decoded.
    Decode,
}

impl FetchError {
    pub open spec fn is_transient_spec(&self) -> bool {
        match self {
            FetchError::Request => true,
            FetchError::Response { status, .. } => 500 <= *status <= 599,
            FetchError::Decode => false,
        }
    }

    /// Transport failures and server errors (5xx) may pass; anything else is fatal.
    pub fn is_transient(&self) -> (r: bool)
        ensures
            r == self.is_transient_spec(),
    {
        match self {
            FetchError::Request => true,
            FetchError::Response { status, .. } => 500 <= *status && *status <= 599,
            FetchError::Decode => false,
        }
    }
}

#[derive(Debug, Clone, Copy, PartialEq, Eq, Structural)]
pub enum Phase {
    Polling,
    Terminal,
    Failed,
    Cancelled,
}

/// What the loop around the poller does next.
pub enum Action {
    /// Hand the snapshot to the display, wait the poll interval and fetch again.
    DeliverThenWait(Build),
    /// Hand the snapshot to the display and stop: the build has finished.
    DeliverThenStop(Build),
    /// Wait this many milliseconds and fetch again.
    RetryAfter(u64),
    /// Stop watching with this error.
    GiveUp(FetchError),
}

/// The polling engine's state.
pub struct Poller {
    pub phase: Phase,
    /// Transient failures since the last successful fetch.
    pub failures: u32,
    pub max_retries: u32,
    pub base_delay_ms: u64,
}

/// `base * 2^n`, saturating at `u64::MAX`.
pub open spec fn backoff_spec(base: u64, n: nat) -> u64
    decreases n,
{
    if n == 0 {
        base
    } else {
        let d = backoff_spec(base, (n - 1) as nat);
        if d > u64::MAX / 2 {
            u64::MAX
        } else {
            (2 * d) as u64
        }
    }
}

/// The delay before retry number `n + 1`: exponential in `n`, saturating.
pub fn backoff(base: u64, n: u32) -> (r: u64)
    ensures
        r == backoff_spec(base, n as nat),
{
    let mut d: u64 = base;
    let mut i: u32 = 0;
    while i < n
        invariant
            i <= n,
            d == backoff_spec(base, i as nat),
        decreases n - i,
    {
        if d > u64::MAX / 2 {
            d = u64::MAX;
        } else {
            d = 2 * d;
        }
        i = i + 1;
    }
    d
}

/// One step: the state after a fetch with outcome `o`, and the action.
pub open spec fn step_spec(p: Poller, o: Result<Build, FetchError>) -> (Poller, Action) {
    match o {
        Ok(b) => if b.is_finished_spec() {
            (Poller { phase: Phase::Terminal, failures: 0, ..p }, Action::DeliverThenStop(b))
        } else {
            (Poller { failures: 0, ..p }, Action::DeliverThenWait(b))
        },
        Err(e) => if e.is_transient_spec() && p.failures < p.max_retries {
            (
                Poller { failures: (p.failures + 1) as u32, ..p },
                Action::RetryAfter(backoff_spec(p.base_delay_ms, p.failures as nat)),
            )
        } else {
            (Poller { phase: Phase::Failed, ..p }, Action::GiveUp(e))
        },
    }
}

/// The states and actions of a poller fed the outcomes `os` in order; once it
/// leaves `Polling`, later outcomes are not consumed.
pub open spec fn run(p: Poller, os: Seq<Result<Build, FetchError>>) -> (Poller, Seq<Action>)
    decreases os.len(),
{
    if os.len() == 0 || p.phase != Phase::Polling {
        (p, Seq::empty())
    } else {
        let (p2, a) = step_spec(p, os[0]);
        let (p3, acts) = run(p2, os.drop_first());
        (p3, seq![a] + acts)
    }
}

/// The snapshots handed to the display by a sequence of actions, in order.
pub open spec fn delivered(acts: Seq<Action>) -> Seq<Build>
    decreases acts.len(),
{
    if acts.len() == 0 {
        Seq::empty()
    } else {
        let rest = delivered(acts.drop_first());
        match acts[0] {
            Action::DeliverThenWait(b) => seq![b] + rest,
            Action::DeliverThenStop(b) => seq![b] + rest,
            _ => rest,
        }
    }
}

impl Poller {
    /// A poller that has fetched nothing yet.
    pub fn new(max_retries: u32, base_delay_ms: u64) -> (r: Poller)
        ensures
            r == (Poller { phase: Phase::Polling, failures: 0, max_retries, base_delay_ms }),
    {
        Poller { phase: Phase::Polling, failures: 0, max_retries, base_delay_ms }
    }

    /// Whether another fetch is due.
    pub fn is_polling(&self) -> (r: bool)
        ensures
            r == (self.phase == Phase::Polling),
    {
        self.phase == Phase::Polling
    }

    /// Takes in the outcome of one fetch. A snapshot is always delivered;
    /// the terminal one ends the watch. A transient failure is retried after
    /// an exponential delay while the retry budget lasts; any other failure,
    /// or one past the budget, ends the watch.
    pub fn step(&mut self, outcome: Result<Build, FetchError>) -> (r: Action)
        requires
            old(self).phase == Phase::Polling,
        ensures
            (*final(self), r) == step_spec(*old(self), outcome),
    {
        match outcome {
            Ok(b) => {
                self.failures = 0;
                if b.is_finished() {
                    self.phase = Phase::Terminal;
                    Action::DeliverThenStop(b)
                } else {
                    Action::DeliverThenWait(b)
                }
            },
            Err(e) => {
                if e.is_transient() && self.failures < self.max_retries {
                    let d = backoff(self.base_delay_ms, self.failures);
                    self.failures = self.failures + 1;
                    Action::RetryAfter(d)
                } else {
                    self.phase = Phase::Failed;
                    Action::GiveUp(e)
                }
            },
        }
    }

    /// Stops the watch at the caller's request.
    pub fn cancel(&mut self)
        ensures
            *final(self) == (Poller { phase: Phase::Cancelled, ..*old(self) }),
    {
        self.phase = Phase::Cancelled;
    }
}

/// Every snapshot fetched is delivered, in order, up to and including the
/// first one that reports the terminal state; nothing is delivered after it,
/// and the poller stops there.
pub proof fn lemma_delivery_stops_at_finished(p: Poller, bs: Seq<Build>, k: int)
    requires
        p.phase == Phase::Polling,
        0 <= k < bs.len(),
        bs[k].is_finished_spec(),
        forall|j: int| 0 <= j < k ==> !(#[trigger] bs[j]).is_finished_spec(),
    ensures
        delivered(run(p, bs.map_values(|b: Build| Ok::<Build, FetchError>(b))).1) == bs.take(k + 1),
        run(p, bs.map_values(|b: Build| Ok::<Build, FetchError>(b))).0.phase == Phase::Terminal,
    decreases k,
{
    let os = bs.map_values(|b: Build| Ok::<Build, FetchError>(b));
    let (p2, a) = step_spec(p, os[0]);
    let tail = bs.drop_first();
    assert(os.drop_first() =~= tail.map_values(|b: Build| Ok::<Build, FetchError>(b)));
    assert(os[0] == Ok::<Build, FetchError>(bs[0]));
    assert(run(p, os) == (run(p2, os.drop_first()).0, seq![a] + run(p2, os.drop_first()).1));
    if k == 0 {
        assert(a == Action::DeliverThenStop(bs[0]));
        assert(p2.phase == Phase::Terminal);
        assert(run(p2, os.drop_first()).1 =~= Seq::<Action>::empty());
        assert(seq![a].drop_first() =~= Seq::<Action>::empty());
        assert(delivered(Seq::<Action>::empty()) =~= Seq::<Build>::empty());
        assert(delivered(seq![a]) =~= seq![bs[0]]);
        assert(seq![a] + Seq::<Action>::empty() =~= seq![a]);
        assert(bs.take(1) =~= seq![bs[0]]);
    } else {
        assert forall|j: int| 0 <= j < k - 1 implies !(#[trigger] tail[j]).is_finished_spec() by {
            assert(tail[j] == bs[j + 1]);
        }
        lemma_delivery_stops_at_finished(p2, tail, k - 1);
        let acts = seq![a] + run(p2, os.drop_first()).1;
        assert(acts.drop_first() =~= run(p2, os.drop_first()).1);
        assert(bs.take(k + 1) =~= seq![bs[0]] + tail.take(k));
    }
}

/// A transient failure within the retry budget, followed by a successful
/// fetch, does not end the watch: the retry is scheduled, the snapshot is
/// delivered and the failure count starts over.
pub proof fn lemma_transient_failure_recovers(
    p: Poller,
    e: FetchError,
    b: Build,
)
    requires
        p.phase == Phase::Polling,
        p.failures < p.max_retries,
        e.is_transient_spec(),
        !b.is_finished_spec(),
    ensures
        run(p, seq![Err(e), Ok(b)]).0 == (Poller { failures: 0, ..p }),
        run(p, seq![Err(e), Ok(b)]).1 == seq![
            Action::RetryAfter(backoff_spec(p.base_delay_ms, p.failures as nat)),
            Action::DeliverThenWait(b),
        ],
{
    let os = seq![Err::<Build, FetchError>(e), Ok::<Build, FetchError>(b)];
    let (p2, a) = step_spec(p, os[0]);
    assert(os.drop_first() =~= seq![Ok::<Build, FetchError>(b)]);
    let os2 = os.drop_first();
    let (p3, a2) = step_spec(p2, os2[0]);
    assert(run(p, os) == (run(p2, os2).0, seq![a] + run(p2, os2).1));
    assert(run(p2, os2) == (run(p3, os2.drop_first()).0, seq![a2] + run(p3, os2.drop_first()).1));
    assert(os2.drop_first() =~= Seq::<Result<Build, FetchError>>::empty());
    assert(run(p3, os2.drop_first()).1 =~= Seq::<Action>::empty());
    assert(seq![a2] + Seq::<Action>::empty() =~= seq![a2]);
    assert(seq![a] + seq![a2] =~= seq![a, a2]);
}

/// Transient failures one past the retry budget, with no success between
/// them, end the watch.
pub proof fn lemma_retry_budget_exhausted(p: Poller, os: Seq<Result<Build, FetchError>>)
    requires
        p.phase == Phase::Polling,
        p.failures <= p.max_retries,
        os.len() == p.max_retries - p.failures + 1,
        forall|j: int| 0 <= j < os.len() ==> (#[trigger] os[j]) is Err && os[j]->Err_0.is_transient_spec(),
    ensures
        run(p, os).0.phase == Phase::Failed,
    decreases os.len(),
{
    let (p2, a) = step_spec(p, os[0]);
    assert(os[0] is Err && os[0]->Err_0.is_transient_spec());
    assert(run(p, os).0 == run(p2, os.drop_first()).0);
    if p.failures < p.max_retries {
        assert forall|j: int| 0 <= j < os.drop_first().len() implies (#[trigger] os.drop_first()[j]) is Err
            && os.drop_first()[j]->Err_0.is_transient_spec() by {
            assert(os.drop_first()[j] == os[j + 1]);
        }
        lemma_retry_budget_exhausted(p2, os.drop_first());
    } else {
        assert(p2.phase == Phase::Failed);
    }
}

} // verus!
