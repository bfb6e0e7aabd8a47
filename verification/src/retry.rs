//! The retry policy of a snapshot blob upload: each blob is tried at most a
//! fixed number of times (at least once), a success ends the attempts, and
//! the n-th failure before the last is followed by a pause of n times the
//! base delay.
use vstd::prelude::*;

verus! {

/// The attempts allowed for a requested maximum: at least one.
pub open spec fn allowed_attempts(max_attempts: usize) -> nat {
    if max_attempts == 0 {
        1
    } else {
        max_attempts as nat
    }
}

/// What follows the outcome of an upload attempt.
#[derive(Debug, Clone, Copy, PartialEq, Eq)]
pub enum RetryDecision {
    /// The upload succeeded.
    Done,
    /// Pause for the base delay times `factor`, then try again.
    RetryAfter { factor: usize },
    /// The last allowed attempt failed after `attempts` attempts.
    GiveUp { attempts: usize },
}

/// The attempt counter of one blob upload.
#[derive(Debug, Clone, Copy, PartialEq, Eq)]
pub struct UploadRetry {
    /// The attempt being made, from 1.
    pub attempt: usize,
    /// The attempts allowed.
    pub attempts: usize,
}

impl UploadRetry {
    pub open spec fn wf(&self) -> bool {
        1 <= self.attempt <= self.attempts
    }

    /// Starts at the first attempt, with `max_attempts` allowed (at least one).
    pub fn new(max_attempts: usize) -> (r: UploadRetry)
        ensures
            r.wf(),
            r.attempt == 1,
            r.attempts == allowed_attempts(max_attempts),
    {
        UploadRetry { attempt: 1, attempts: if max_attempts == 0 { 1 } else { max_attempts } }
    }

    /// Takes the outcome of the current attempt.
    pub fn on_outcome(&mut self, succeeded: bool) -> (d: RetryDecision)
        requires
            old(self).wf(),
        ensures
            final(self).wf(),
            final(self).attempts == old(self).attempts,
            succeeded ==> d == RetryDecision::Done && *final(self) == *old(self),
            !succeeded && old(self).attempt < old(self).attempts ==> d == (RetryDecision::RetryAfter {
                factor: old(self).attempt,
            }) && final(self).attempt == old(self).attempt + 1,
            !succeeded && old(self).attempt == old(self).attempts ==> d == (RetryDecision::GiveUp {
                attempts: old(self).attempts,
            }) && *final(self) == *old(self),
    {
        if succeeded {
            RetryDecision::Done
        } else if self.attempt < self.attempts {
            let factor = self.attempt;
            self.attempt = self.attempt + 1;
            RetryDecision::RetryAfter { factor }
        } else {
            RetryDecision::GiveUp { attempts: self.attempts }
        }
    }
}

/// The context put on the last error when an upload gives up.
pub open spec fn give_up_text(digest: Seq<char>, attempts: usize) -> Seq<char> {
    "Failed to upload snapshot blob "@ + digest + " after "@ + crate::text::decimal(attempts as nat)
        + " attempt(s)"@
}

/// The context put on the last error when an upload of `digest` gives up
/// after `attempts` attempts.
pub fn give_up_message(digest: &str, attempts: usize) -> (r: String)
    ensures
        r@ == give_up_text(digest@, attempts),
{
    let mut out = crate::text::chars_of("Failed to upload snapshot blob ");
    crate::text::append_chars(&mut out, crate::text::chars_of(digest).as_slice());
    crate::text::append_chars(&mut out, crate::text::chars_of(" after ").as_slice());
    crate::text::append_chars(&mut out, crate::text::u64_to_decimal(attempts as u64).as_slice());
    crate::text::append_chars(&mut out, crate::text::chars_of(" attempt(s)").as_slice());
    crate::text::string_of(out.as_slice())
}

/// The attempts made when the upload outcomes come in the order of
/// `outcomes`: up to and including the first success, and no more than
/// `attempts`.
pub open spec fn attempts_made(outcomes: Seq<bool>, attempts: nat) -> nat
    decreases outcomes.len(),
{
    if outcomes.len() == 0 || attempts == 0 {
        0
    } else if outcomes[0] {
        1
    } else {
        1 + attempts_made(outcomes.drop_first(), (attempts - 1) as nat)
    }
}

/// Whether one of the first `attempts` outcomes is a success.
pub open spec fn succeeds_within(outcomes: Seq<bool>, attempts: nat) -> bool {
    exists|i: int| 0 <= i < attempts && i < outcomes.len() && #[trigger] outcomes[i]
}

proof fn lemma_attempts_made_step(outcomes: Seq<bool>, attempts: nat, k: nat)
    requires
        k < outcomes.len(),
        k < attempts,
        forall|i: int| 0 <= i < k ==> !#[trigger] outcomes[i],
    ensures
        attempts_made(outcomes, attempts) == k + attempts_made(
            outcomes.subrange(k as int, outcomes.len() as int),
            (attempts - k) as nat,
        ),
    decreases k,
{
    if k > 0 {
        assert(!outcomes[0]);
        let rest = outcomes.drop_first();
        assert forall|i: int| 0 <= i < k - 1 implies !#[trigger] rest[i] by {
            assert(rest[i] == outcomes[i + 1]);
        }
        lemma_attempts_made_step(rest, (attempts - 1) as nat, (k - 1) as nat);
        assert(rest.subrange(k - 1, rest.len() as int) =~= outcomes.subrange(
            k as int,
            outcomes.len() as int,
        ));
    } else {
        assert(outcomes.subrange(0, outcomes.len() as int) =~= outcomes);
    }
}

/// Drives the retry policy over a list of upload outcomes, as the upload
/// loop does with the outcomes of its real attempts; gives the number of
/// attempts made and whether the upload succeeded. The list must hold an
/// outcome for every attempt the policy can make.
pub fn run_upload_attempts(max_attempts: usize, outcomes: &Vec<bool>) -> (r: (usize, bool))
    requires
        outcomes.len() >= allowed_attempts(max_attempts),
    ensures
        r.0 == attempts_made(outcomes@, allowed_attempts(max_attempts)),
        r.1 == succeeds_within(outcomes@, allowed_attempts(max_attempts)),
{
    let mut retry = UploadRetry::new(max_attempts);
    let ghost total = allowed_attempts(max_attempts);
    loop
        invariant
            retry.wf(),
            retry.attempts == total,
            total == allowed_attempts(max_attempts),
            outcomes.len() >= total,
            forall|i: int| 0 <= i < retry.attempt - 1 ==> !#[trigger] outcomes@[i],
        decreases retry.attempts - retry.attempt,
    {
        let k = retry.attempt - 1;
        let outcome = outcomes[k];
        let made = retry.attempt;
        match retry.on_outcome(outcome) {
            RetryDecision::Done => {
                proof {
                    lemma_attempts_made_step(outcomes@, total, k as nat);
                    let rest = outcomes@.subrange(k as int, outcomes@.len() as int);
                    assert(rest[0] == outcomes@[k as int]);
                    assert(succeeds_within(outcomes@, total)) by {
                        assert(outcomes@[k as int]);
                    }
                }
                return (made, true);
            },
            RetryDecision::RetryAfter { .. } => {},
            RetryDecision::GiveUp { .. } => {
                proof {
                    lemma_attempts_made_step(outcomes@, total, k as nat);
                    let rest = outcomes@.subrange(k as int, outcomes@.len() as int);
                    assert(rest[0] == outcomes@[k as int]);
                    assert(attempts_made(rest.drop_first(), 0) == 0);
                    assert(!succeeds_within(outcomes@, total)) by {
                        assert forall|i: int| 0 <= i < total && i < outcomes@.len() implies !#[trigger] outcomes@[i] by {
                            if i < k {
                            } else {
                                assert(i == k);
                            }
                        }
                    }
                }
                return (made, false);
            },
        }
    }
}

/// A failing upload is tried exactly as many times as allowed, and never
/// more; a success stops the attempts at once.
pub proof fn law_upload_attempts_are_bounded(outcomes: Seq<bool>, attempts: nat)
    requires
        attempts >= 1,
        outcomes.len() >= attempts,
    ensures
        attempts_made(outcomes, attempts) <= attempts,
        !succeeds_within(outcomes, attempts) ==> attempts_made(outcomes, attempts) == attempts,
        succeeds_within(outcomes, attempts) ==> outcomes[attempts_made(outcomes, attempts) - 1],
    decreases attempts,
{
    if outcomes[0] {
        assert(attempts_made(outcomes, attempts) == 1);
    } else if attempts == 1 {
        assert(attempts_made(outcomes.drop_first(), 0) == 0);
        assert(!succeeds_within(outcomes, attempts)) by {
            assert forall|i: int| 0 <= i < attempts && i < outcomes.len() implies !#[trigger] outcomes[i] by {
                assert(i == 0);
            }
        }
    } else {
        let rest = outcomes.drop_first();
        law_upload_attempts_are_bounded(rest, (attempts - 1) as nat);
        if succeeds_within(outcomes, attempts) {
            let i = choose|i: int| 0 <= i < attempts && i < outcomes.len() && #[trigger] outcomes[i];
            assert(i > 0);
            assert(rest[i - 1]);
            assert(succeeds_within(rest, (attempts - 1) as nat));
            let m = attempts_made(rest, (attempts - 1) as nat);
            assert(rest[m - 1] == outcomes[m as int]);
        } else {
            assert(!succeeds_within(rest, (attempts - 1) as nat)) by {
                if succeeds_within(rest, (attempts - 1) as nat) {
                    let j = choose|j: int| 0 <= j < attempts - 1 && j < rest.len() && #[trigger] rest[j];
                    assert(outcomes[j + 1]);
                }
            }
        }
    }
}

/// With `f` failures before the first success (or no success at all when
/// `f` is the number of outcomes), the upload is tried `min(f + 1, n)`
/// times for `n` allowed attempts, and succeeds exactly when `f < n`.
pub proof fn law_upload_attempts_count(outcomes: Seq<bool>, attempts: nat, f: nat)
    requires
        attempts >= 1,
        outcomes.len() >= attempts,
        f <= outcomes.len(),
        forall|i: int| 0 <= i < f ==> !#[trigger] outcomes[i],
        f < outcomes.len() ==> outcomes[f as int],
    ensures
        attempts_made(outcomes, attempts) == (if f < attempts { f + 1 } else { attempts }),
        succeeds_within(outcomes, attempts) == (f < attempts),
{
    if f < attempts {
        lemma_attempts_made_step(outcomes, attempts, f);
        let rest = outcomes.subrange(f as int, outcomes.len() as int);
        assert(rest[0] == outcomes[f as int]);
        assert(outcomes[f as int]);
    } else {
        let k = (attempts - 1) as nat;
        lemma_attempts_made_step(outcomes, attempts, k);
        let rest = outcomes.subrange(k as int, outcomes.len() as int);
        assert(rest[0] == outcomes[k as int]);
        assert(attempts_made(rest.drop_first(), 0) == 0);
        assert(!succeeds_within(outcomes, attempts)) by {
            assert forall|i: int| 0 <= i < attempts && i < outcomes.len() implies !#[trigger] outcomes[i] by {}
        }
    }
}

} // verus!
