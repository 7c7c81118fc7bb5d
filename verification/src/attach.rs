//! Attaching to RTT: where the control block is looked for, and how long it is tried.

use vstd::prelude::*;

verus! {

/// Where the RTT control block is looked for.
#[derive(Debug)]
pub enum ScanRegion {
    /// In all of the RAM.
    Ram,
    /// In ranges of addresses, each given by its start and its end.
    Ranges(Vec<(u64, u64)>),
    /// At one address.
    Exact(u32),
}

/// Decides where the control block is looked for: at the address of its symbol in the
/// ELF file, of which the lower 32 bits count, else where the caller asks for.
pub fn scan_region(symbol: Option<u64>, region: ScanRegion) -> (r: ScanRegion)
    ensures
        r == match symbol {
            Some(address) => ScanRegion::Exact((address % 0x1_0000_0000) as u32),
            None => region,
        },
{
    match symbol {
        Some(address) => ScanRegion::Exact((address % 0x1_0000_0000) as u32),
        None => region,
    }
}

/// The pause between two attempts, in milliseconds.
pub const RETRY_PAUSE_MILLIS: u64 = 10;

/// What came of an attempt to attach.
#[derive(Debug)]
pub enum Attempt<T, E> {
    /// The control block was found and the channels are set up.
    Attached(T),
    /// The control block could not be read, or the channels could not be set up.
    NotReady(E),
    /// There is no control block on the target.
    NoRtt,
    /// The core could not be reached.
    CoreLost(E),
}

/// Why attaching failed.
#[derive(Debug)]
pub enum AttachError<E> {
    /// The error that came.
    Cause(E),
    /// Time ran out before any attempt.
    TimedOut,
}

impl<E> AttachError<E> {
    /// The text of the error where no other is at hand.
    pub fn timed_out_message() -> (r: &'static str)
        ensures
            r@ == "Error setting up RTT"@,
    {
        "Error setting up RTT"
    }
}

/// The context in which a failure to attach is reported.
pub fn attach_context() -> (r: &'static str)
    ensures
        r@ == "Failed to attach to RTT"@,
{
    "Failed to attach to RTT"
}

/// The state of attaching between two attempts.
#[derive(Debug)]
pub struct RttAttach<E> {
    /// For how long attempts are started, in nanoseconds.
    pub timeout_nanos: u128,
    /// How many attempts were started; the count stays at its largest value.
    pub attempts: u64,
    /// What went wrong last.
    pub last_error: Option<E>,
}

/// What is done next.
#[derive(Debug)]
pub enum Next<T, E> {
    /// Make the attempt with this number.
    Attempt(RttAttach<E>, u64),
    /// Pause for so many milliseconds, then look at the clock again.
    Pause(RttAttach<E>, u64),
    /// Attaching has ended: with the target, without RTT, or with an error.
    Finished(Result<Option<T>, AttachError<E>>),
}

impl<E> RttAttach<E> {
    /// The number of the next attempt.
    pub open spec fn next_number(self) -> u64 {
        if self.attempts < u64::MAX {
            (self.attempts + 1) as u64
        } else {
            self.attempts
        }
    }

    /// What is done once the clock is read: an attempt is made while there is time left;
    /// afterwards the last error is reported, if there was one.
    pub open spec fn at_spec<T>(self, elapsed_nanos: u128) -> Next<T, E> {
        if elapsed_nanos < self.timeout_nanos {
            Next::Attempt(
                RttAttach { attempts: self.next_number(), ..self },
                self.next_number(),
            )
        } else {
            Next::Finished(
                Err(
                    match self.last_error {
                        Some(error) => AttachError::Cause(error),
                        None => AttachError::TimedOut,
                    },
                ),
            )
        }
    }

    /// What is done after an attempt: only a target that is not ready is tried again.
    pub open spec fn tried_spec<T>(self, attempt: Attempt<T, E>) -> Next<T, E> {
        match attempt {
            Attempt::Attached(target) => Next::Finished(Ok(Some(target))),
            Attempt::NotReady(error) => Next::Pause(
                RttAttach { last_error: Some(error), ..self },
                RETRY_PAUSE_MILLIS,
            ),
            Attempt::NoRtt => Next::Finished(Ok(None)),
            Attempt::CoreLost(error) => Next::Finished(Err(AttachError::Cause(error))),
        }
    }

    /// Starts to attach.
    pub fn start(timeout_nanos: u128) -> (r: Self)
        ensures
            r == (RttAttach { timeout_nanos, attempts: 0, last_error: None::<E> }),
    {
        RttAttach { timeout_nanos, attempts: 0, last_error: None }
    }

    /// Decides what is done once the clock is read.
    pub fn at<T>(self, elapsed_nanos: u128) -> (r: Next<T, E>)
        ensures
            r == self.at_spec::<T>(elapsed_nanos),
            elapsed_nanos < self.timeout_nanos ==> (r matches Next::Attempt(state, number) && {
                &&& number == self.attempts + 1 || self.attempts == number == u64::MAX
                &&& state.attempts == number
                &&& state.timeout_nanos == self.timeout_nanos
                &&& state.last_error == self.last_error
            }),
            elapsed_nanos >= self.timeout_nanos ==> (r matches Next::Finished(Err(error)) && {
                &&& self.last_error matches Some(last) ==> error == AttachError::Cause(last)
                &&& self.last_error is None ==> error is TimedOut
            }),
    {
        if elapsed_nanos < self.timeout_nanos {
            let number: u64 = if self.attempts < u64::MAX {
                self.attempts + 1
            } else {
                self.attempts
            };
            Next::Attempt(
                RttAttach {
                    timeout_nanos: self.timeout_nanos,
                    attempts: number,
                    last_error: self.last_error,
                },
                number,
            )
        } else {
            match self.last_error {
                Some(error) => Next::Finished(Err(AttachError::Cause(error))),
                None => Next::Finished(Err(AttachError::TimedOut)),
            }
        }
    }

    /// Decides what is done after an attempt.
    pub fn tried<T>(self, attempt: Attempt<T, E>) -> (r: Next<T, E>)
        ensures
            r == self.tried_spec(attempt),
            match attempt {
                Attempt::Attached(target) => r matches Next::Finished(Ok(Some(found))) && found
                    == target,
                Attempt::NotReady(error) => r matches Next::Pause(state, millis) && {
                    &&& millis == 10
                    &&& state.timeout_nanos == self.timeout_nanos
                    &&& state.attempts == self.attempts
                    &&& state.last_error == Some(error)
                },
                Attempt::NoRtt => r matches Next::Finished(Ok(None)),
                Attempt::CoreLost(error) => r matches Next::Finished(
                    Err(AttachError::Cause(cause)),
                ) && cause == error,
            },
    {
        match attempt {
            Attempt::Attached(target) => Next::Finished(Ok(Some(target))),
            Attempt::NotReady(error) => Next::Pause(
                RttAttach {
                    timeout_nanos: self.timeout_nanos,
                    attempts: self.attempts,
                    last_error: Some(error),
                },
                RETRY_PAUSE_MILLIS,
            ),
            Attempt::NoRtt => Next::Finished(Ok(None)),
            Attempt::CoreLost(error) => Next::Finished(Err(AttachError::Cause(error))),
        }
    }
}

/// What is done once attaching has ended without an error.
#[derive(Clone, Copy, Debug, PartialEq, Eq, Structural)]
pub enum RttStart {
    /// There is no RTT: the channels are not shown.
    Skip,
    /// Show the channels.
    Show {
        /// Whether the user is warned that frames of `defmt` cannot be decoded.
        warn_defmt: bool,
    },
}

/// Decides what is done once attaching has ended without an error. `metadata` says, of a
/// target that is attached to, whether metadata of `defmt` was found.
pub fn rtt_start(metadata: Option<bool>, require_defmt: bool) -> (r: RttStart)
    ensures
        r == match metadata {
            None => RttStart::Skip,
            Some(found) => RttStart::Show { warn_defmt: require_defmt && !found },
        },
{
    match metadata {
        None => RttStart::Skip,
        Some(found) => RttStart::Show { warn_defmt: require_defmt && !found },
    }
}

// ---------------------------------------------------------------------------
// Laws of attaching as a whole
// ---------------------------------------------------------------------------

/// A look at the clock, and what comes of an attempt that is made then.
pub struct Round<T, E> {
    /// How much time has passed.
    pub elapsed_nanos: u128,
    /// What comes of an attempt.
    pub attempt: Attempt<T, E>,
}

/// What attaching ends with from the round with the number `k` on; `None` where more
/// rounds are needed.
pub open spec fn outcome<T, E>(state: RttAttach<E>, rounds: Seq<Round<T, E>>, k: int) -> Option<
    Result<Option<T>, AttachError<E>>,
>
    decreases rounds.len() - k,
{
    if k < 0 || k >= rounds.len() {
        None
    } else {
        match state.at_spec::<T>(rounds[k].elapsed_nanos) {
            Next::Attempt(started, _) => match started.tried_spec(rounds[k].attempt) {
                Next::Pause(waiting, _) => outcome(waiting, rounds, k + 1),
                Next::Finished(result) => Some(result),
                Next::Attempt(_, _) => None,
            },
            Next::Finished(result) => Some(result),
            Next::Pause(_, _) => None,
        }
    }
}

/// The state after attempts that all found the target not ready.
pub open spec fn waiting<T, E>(timeout_nanos: u128, rounds: Seq<Round<T, E>>, n: int) -> RttAttach<E> {
    RttAttach {
        timeout_nanos,
        attempts: if n <= u64::MAX {
            n as u64
        } else {
            u64::MAX
        },
        last_error: if n > 0 {
            Some(rounds[n - 1].attempt->NotReady_0)
        } else {
            None
        },
    }
}

/// Whether the first `n` rounds start in time and find the target not ready.
pub open spec fn not_ready<T, E>(timeout_nanos: u128, rounds: Seq<Round<T, E>>, n: int) -> bool {
    &&& 0 <= n <= rounds.len()
    &&& forall|k: int|
        0 <= k < n ==> (#[trigger] rounds[k]).elapsed_nanos < timeout_nanos
            && rounds[k].attempt is NotReady
}

/// Attempts are numbered from one on, and after any number of them that found the target
/// not ready attaching goes on from the error of the last one.
pub proof fn lemma_not_ready<T, E>(timeout_nanos: u128, rounds: Seq<Round<T, E>>, n: int)
    requires
        not_ready(timeout_nanos, rounds, n),
    ensures
        outcome(waiting(timeout_nanos, rounds, 0), rounds, 0) == outcome(
            waiting(timeout_nanos, rounds, n),
            rounds,
            n,
        ),
        n < u64::MAX ==> waiting(timeout_nanos, rounds, n).next_number() == n + 1,
    decreases n,
{
    if n > 0 {
        lemma_not_ready(timeout_nanos, rounds, n - 1);
        let last = rounds[n - 1];
        assert(last.elapsed_nanos < timeout_nanos && last.attempt is NotReady);
    }
}

/// Attaching ends with the first round that starts too late or does not find the target
/// not ready. In time it ends with what that attempt found: the target, no RTT, or the
/// error of a core that is out of reach. Too late it ends, without a further attempt,
/// with the error of the last attempt, or with an error of its own where there was none.
pub proof fn lemma_outcome<T, E>(timeout_nanos: u128, rounds: Seq<Round<T, E>>, n: int)
    requires
        not_ready(timeout_nanos, rounds, n),
        n < rounds.len(),
        rounds[n].elapsed_nanos >= timeout_nanos || !(rounds[n].attempt is NotReady),
    ensures
        outcome(waiting(timeout_nanos, rounds, 0), rounds, 0) == Some(
            if rounds[n].elapsed_nanos >= timeout_nanos {
                Err(
                    if n > 0 {
                        AttachError::Cause(rounds[n - 1].attempt->NotReady_0)
                    } else {
                        AttachError::TimedOut
                    },
                )
            } else {
                match rounds[n].attempt {
                    Attempt::Attached(target) => Ok(Some(target)),
                    Attempt::NoRtt => Ok(None),
                    Attempt::CoreLost(error) => Err(AttachError::Cause(error)),
                    Attempt::NotReady(error) => Err(AttachError::Cause(error)),
                }
            },
        ),
{
    lemma_not_ready(timeout_nanos, rounds, n);
}

/// Whether the round with the number `n` decides: all earlier ones start in time and find
/// the target not ready, and this one starts too late or finds something else.
pub open spec fn decides<T, E>(timeout_nanos: u128, rounds: Seq<Round<T, E>>, n: int) -> bool {
    &&& not_ready(timeout_nanos, rounds, n)
    &&& n < rounds.len()
    &&& rounds[n].elapsed_nanos >= timeout_nanos || !(rounds[n].attempt is NotReady)
}

/// Where attaching has ended, one round decided.
proof fn lemma_decided<T, E>(timeout_nanos: u128, rounds: Seq<Round<T, E>>, k: int) -> (n: int)
    requires
        not_ready(timeout_nanos, rounds, k),
        outcome(waiting(timeout_nanos, rounds, k), rounds, k) is Some,
    ensures
        decides(timeout_nanos, rounds, n),
    decreases rounds.len() - k,
{
    if rounds[k].elapsed_nanos < timeout_nanos && rounds[k].attempt is NotReady {
        lemma_not_ready(timeout_nanos, rounds, k);
        lemma_not_ready(timeout_nanos, rounds, k + 1);
        lemma_decided(timeout_nanos, rounds, k + 1)
    } else {
        k
    }
}

/// A target is handed back only where an attempt that started in time gave just that
/// target, and every attempt before it found the target not ready.
pub proof fn lemma_attached_only_if<T, E>(timeout_nanos: u128, rounds: Seq<Round<T, E>>, target: T)
    requires
        outcome(waiting(timeout_nanos, rounds, 0), rounds, 0) == Some(
            Ok::<Option<T>, AttachError<E>>(Some(target)),
        ),
    ensures
        exists|n: int| #[trigger]
            decides(timeout_nanos, rounds, n) && rounds[n].elapsed_nanos < timeout_nanos
                && rounds[n].attempt == Attempt::<T, E>::Attached(target),
{
    let n = lemma_decided(timeout_nanos, rounds, 0);
    lemma_outcome(timeout_nanos, rounds, n);
}

/// Attaching ends without RTT only where an attempt that started in time found none, and
/// every attempt before it found the target not ready.
pub proof fn lemma_no_rtt_only_if<T, E>(timeout_nanos: u128, rounds: Seq<Round<T, E>>)
    requires
        outcome(waiting(timeout_nanos, rounds, 0), rounds, 0) == Some(
            Ok::<Option<T>, AttachError<E>>(None),
        ),
    ensures
        exists|n: int| #[trigger]
            decides(timeout_nanos, rounds, n) && rounds[n].elapsed_nanos < timeout_nanos
                && rounds[n].attempt is NoRtt,
{
    let n = lemma_decided(timeout_nanos, rounds, 0);
    lemma_outcome(timeout_nanos, rounds, n);
}

/// The error of its own is reported only where the first look at the clock comes too late,
/// so that no attempt is made.
pub proof fn lemma_timed_out_only_if<T, E>(timeout_nanos: u128, rounds: Seq<Round<T, E>>)
    requires
        outcome(waiting(timeout_nanos, rounds, 0), rounds, 0) == Some(
            Err::<Option<T>, AttachError<E>>(AttachError::TimedOut),
        ),
    ensures
        rounds.len() > 0,
        rounds[0].elapsed_nanos >= timeout_nanos,
{
    let n = lemma_decided(timeout_nanos, rounds, 0);
    lemma_outcome(timeout_nanos, rounds, n);
}

/// The error of an attempt is reported only where a core was out of reach in time, or where
/// it is the error of the last attempt before the time was up.
pub proof fn lemma_cause_only_if<T, E>(timeout_nanos: u128, rounds: Seq<Round<T, E>>, error: E)
    requires
        outcome(waiting(timeout_nanos, rounds, 0), rounds, 0) == Some(
            Err::<Option<T>, AttachError<E>>(AttachError::Cause(error)),
        ),
    ensures
        exists|n: int| #[trigger]
            decides(timeout_nanos, rounds, n) && (if rounds[n].elapsed_nanos < timeout_nanos {
                rounds[n].attempt == Attempt::<T, E>::CoreLost(error)
            } else {
                n > 0 && rounds[n - 1].attempt == Attempt::<T, E>::NotReady(error)
            }),
{
    let n = lemma_decided(timeout_nanos, rounds, 0);
    lemma_outcome(timeout_nanos, rounds, n);
    if rounds[n].elapsed_nanos >= timeout_nanos && n > 0 {
        assert(rounds[n - 1].attempt is NotReady);
    }
}

/// Whether each of the first `n` looks at the clock comes at least a pause after the one
/// before it.
pub open spec fn paused<T, E>(rounds: Seq<Round<T, E>>, n: int) -> bool {
    forall|k: int|
        0 < k < n ==> (#[trigger] rounds[k]).elapsed_nanos >= rounds[k - 1].elapsed_nanos
            + RETRY_PAUSE_MILLIS * 1_000_000
}

/// The timeout bounds the number of attempts: with a pause between two of them, all
/// pauses between attempts that start in time are together shorter than the timeout.
pub proof fn lemma_attempts_bounded<T, E>(timeout_nanos: u128, rounds: Seq<Round<T, E>>, n: int)
    requires
        0 < n <= rounds.len(),
        paused(rounds, n),
        forall|k: int| 0 <= k < n ==> (#[trigger] rounds[k]).elapsed_nanos < timeout_nanos,
    ensures
        RETRY_PAUSE_MILLIS * 1_000_000 * (n - 1) < timeout_nanos,
{
    lemma_pauses_add_up(rounds, n, n - 1);
    assert(rounds[n - 1].elapsed_nanos < timeout_nanos);
}

proof fn lemma_pauses_add_up<T, E>(rounds: Seq<Round<T, E>>, n: int, k: int)
    requires
        0 <= k < n <= rounds.len(),
        paused(rounds, n),
    ensures
        RETRY_PAUSE_MILLIS * 1_000_000 * k <= rounds[k].elapsed_nanos,
    decreases k,
{
    if k > 0 {
        lemma_pauses_add_up(rounds, n, k - 1);
        assert(rounds[k].elapsed_nanos >= rounds[k - 1].elapsed_nanos + RETRY_PAUSE_MILLIS
            * 1_000_000);
    }
}

/// The clock decides whether an attempt is made: it is made exactly while less than the
/// timeout has passed, it has the number behind that of the attempt before, and neither the
/// timeout nor the last error changes. Afterwards attaching ends with the last error, or
/// with an error of its own where there was none.
pub proof fn lemma_clock_decides<T, E>(state: RttAttach<E>, elapsed_nanos: u128)
    ensures
        ({
            let next = state.at_spec::<T>(elapsed_nanos);
            &&& next is Attempt <==> elapsed_nanos < state.timeout_nanos
            &&& next is Finished <==> elapsed_nanos >= state.timeout_nanos
            &&& next matches Next::Attempt(started, number) ==> {
                &&& state.attempts < u64::MAX ==> number == state.attempts + 1
                &&& state.attempts == u64::MAX ==> number == u64::MAX
                &&& started.attempts == number
                &&& started.timeout_nanos == state.timeout_nanos
                &&& started.last_error == state.last_error
            }
            &&& next matches Next::Finished(result) ==> {
                &&& result matches Err(error)
                &&& state.last_error matches Some(last) ==> error == AttachError::Cause(last)
                &&& state.last_error is None ==> error is TimedOut
            }
        }),
{
}

/// An attempt decides whether attaching goes on: only where the target was not ready, after
/// a pause of ten milliseconds, with the error kept and the count and the timeout as they
/// were. Else attaching ends with what the attempt found.
pub proof fn lemma_attempt_decides<T, E>(state: RttAttach<E>, attempt: Attempt<T, E>)
    ensures
        ({
            let next = state.tried_spec(attempt);
            &&& next is Pause <==> attempt is NotReady
            &&& next is Finished <==> !(attempt is NotReady)
            &&& next matches Next::Pause(waiting, millis) ==> {
                &&& millis == 10
                &&& waiting.timeout_nanos == state.timeout_nanos
                &&& waiting.attempts == state.attempts
                &&& attempt matches Attempt::NotReady(error) && waiting.last_error == Some(error)
            }
            &&& next matches Next::Finished(result) ==> {
                &&& result is Ok <==> !(attempt is CoreLost)
                &&& attempt matches Attempt::Attached(target) ==> result->Ok_0 == Some(target)
                &&& attempt is NoRtt ==> result->Ok_0 is None
                &&& attempt matches Attempt::CoreLost(error) ==> result->Err_0
                    == AttachError::Cause(error)
            }
        }),
{
}

} // verus!
