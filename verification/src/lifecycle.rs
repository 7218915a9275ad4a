use vstd::prelude::*;
use crate::b256::B256;
use crate::errors::MiningError;

verus! {

/// A mined transaction's receipt, as the chain collaborator reports it.
#[derive(Clone, Copy, Debug, PartialEq, Eq, Structural)]
pub struct Receipt {
    pub tx_hash: B256,
    pub block_number: u64,
    pub success: bool,
}

/// Where a submitted transaction stands while its receipt is awaited.
#[derive(Clone, Copy, Debug, PartialEq, Eq, Structural)]
pub enum PollStatus {
    Pending,
    Confirmed { receipt: Receipt },
    TimedOut,
}

/// The bounded receipt poll for one submitted transaction: a fixed retry
/// budget is consumed one miss at a time, and the transaction is never
/// resubmitted.
#[derive(Clone, Copy, Debug, PartialEq, Eq, Structural)]
pub struct ReceiptPoll {
    pub tx_id: B256,
    pub max_attempts: u64,
    pub attempts: u64,
    pub status: PollStatus,
}

/// A freshly submitted transaction: no attempts spent, receipt awaited.
pub open spec fn spec_fresh_poll(tx_id: B256, max_attempts: u64) -> ReceiptPoll {
    ReceiptPoll { tx_id, max_attempts, attempts: 0, status: PollStatus::Pending }
}

/// One poll round: a receipt confirms; a miss spends one attempt, and
/// spending the last one times the poll out. A settled poll never moves.
pub open spec fn spec_poll_step(p: ReceiptPoll, observed: Option<Receipt>) -> ReceiptPoll {
    if p.status is Pending {
        match observed {
            Some(rc) => ReceiptPoll {
                tx_id: p.tx_id,
                max_attempts: p.max_attempts,
                attempts: p.attempts,
                status: PollStatus::Confirmed { receipt: rc },
            },
            None => ReceiptPoll {
                tx_id: p.tx_id,
                max_attempts: p.max_attempts,
                attempts: (p.attempts + 1) as u64,
                status: if p.attempts + 1 >= p.max_attempts {
                    PollStatus::TimedOut
                } else {
                    PollStatus::Pending
                },
            },
        }
    } else {
        p
    }
}

/// The poll after a whole script of observations, applied in order.
pub open spec fn spec_poll_run(p: ReceiptPoll, script: Seq<Option<Receipt>>) -> ReceiptPoll
    decreases script.len(),
{
    if script.len() == 0 {
        p
    } else {
        spec_poll_run(spec_poll_step(p, script[0]), script.drop_first())
    }
}

/// A script of `k` rounds in which no receipt ever arrives.
pub open spec fn spec_no_receipts(k: nat) -> Seq<Option<Receipt>> {
    Seq::new(k, |j: int| None::<Receipt>)
}

impl ReceiptPoll {
    /// The attempt budget is never exceeded, and a pending poll still has
    /// budget left.
    pub open spec fn wf(&self) -> bool {
        &&& self.attempts <= self.max_attempts
        &&& self.status is Pending ==> self.attempts < self.max_attempts
    }

    /// Starts the bounded poll for one submitted transaction.
    pub fn new(tx_id: B256, max_attempts: u64) -> (p: ReceiptPoll)
        requires
            max_attempts >= 1,
        ensures
            p == spec_fresh_poll(tx_id, max_attempts),
            p.wf(),
    {
        ReceiptPoll { tx_id, max_attempts, attempts: 0, status: PollStatus::Pending }
    }

    /// Takes one observed poll round. Retries only re-poll: no observation
    /// ever submits anything again.
    pub fn step(&mut self, observed: Option<Receipt>)
        requires
            old(self).wf(),
        ensures
            final(self).wf(),
            *final(self) == spec_poll_step(*old(self), observed),
    {
        match self.status {
            PollStatus::Pending => {
                match observed {
                    Some(rc) => {
                        self.status = PollStatus::Confirmed { receipt: rc };
                    },
                    None => {
                        self.attempts = self.attempts + 1;
                        if self.attempts >= self.max_attempts {
                            self.status = PollStatus::TimedOut;
                        }
                    },
                }
            },
            _ => {
            },
        }
    }

    /// The settled outcome: the receipt on confirmation, the timeout error
    /// carrying the transaction identifier on exhaustion, nothing while the
    /// poll is still pending.
    pub fn outcome(&self) -> (r: Option<Result<Receipt, MiningError>>)
        ensures
            self.status is Pending ==> r is None,
            self.status matches PollStatus::Confirmed { receipt } ==> r == Some(Ok::<
                Receipt,
                MiningError,
            >(receipt)),
            self.status is TimedOut ==> r == Some(Err::<Receipt, MiningError>(
                MiningError::ConfirmationTimeout { tx_id: self.tx_id },
            )),
    {
        match self.status {
            PollStatus::Pending => None,
            PollStatus::Confirmed { receipt } => Some(Ok(receipt)),
            PollStatus::TimedOut => Some(
                Err(MiningError::ConfirmationTimeout { tx_id: self.tx_id }),
            ),
        }
    }
}

/// Runs a fresh poll against a script of observations, one step per entry.
pub fn poll_transaction(tx_id: B256, max_attempts: u64, script: &Vec<Option<Receipt>>) -> (p:
    ReceiptPoll)
    requires
        max_attempts >= 1,
    ensures
        p == spec_poll_run(spec_fresh_poll(tx_id, max_attempts), script@),
{
    let mut p = ReceiptPoll::new(tx_id, max_attempts);
    let mut i: usize = 0;
    proof {
        assert(script@.skip(0) =~= script@);
    }
    while i < script.len()
        invariant
            i <= script@.len(),
            p.wf(),
            spec_poll_run(spec_fresh_poll(tx_id, max_attempts), script@) == spec_poll_run(
                p,
                script@.skip(i as int),
            ),
        decreases script@.len() - i,
    {
        proof {
            assert(script@.skip(i as int).drop_first() =~= script@.skip(i as int + 1));
            assert(script@.skip(i as int)[0] == script@[i as int]);
        }
        let observed = script[i];
        p.step(observed);
        i += 1;
    }
    proof {
        assert(script@.skip(script@.len() as int) =~= Seq::<Option<Receipt>>::empty());
    }
    p
}

/// A settled poll is inert: no further observations move it.
proof fn lemma_poll_run_settled(p: ReceiptPoll, script: Seq<Option<Receipt>>)
    requires
        !(p.status is Pending),
    ensures
        spec_poll_run(p, script) == p,
    decreases script.len(),
{
    if script.len() > 0 {
        lemma_poll_run_settled(p, script.drop_first());
    }
}

/// `k` receipt-less rounds against a pending poll spend exactly `k`
/// attempts: the poll stays pending while budget remains and times out on
/// the round that spends the last attempt.
proof fn lemma_poll_run_no_receipts(p: ReceiptPoll, k: nat)
    requires
        p.status is Pending,
        p.attempts + k <= p.max_attempts,
    ensures
        p.attempts + k < p.max_attempts ==> spec_poll_run(p, spec_no_receipts(k)) == (ReceiptPoll {
            tx_id: p.tx_id,
            max_attempts: p.max_attempts,
            attempts: (p.attempts + k) as u64,
            status: PollStatus::Pending,
        }),
        p.attempts + k == p.max_attempts && k >= 1 ==> spec_poll_run(p, spec_no_receipts(k))
            == (ReceiptPoll {
            tx_id: p.tx_id,
            max_attempts: p.max_attempts,
            attempts: p.max_attempts,
            status: PollStatus::TimedOut,
        }),
    decreases k,
{
    if k > 0 {
        let q = spec_poll_step(p, None);
        assert(spec_no_receipts(k).drop_first() =~= spec_no_receipts((k - 1) as nat));
        if p.attempts + 1 >= p.max_attempts {
            lemma_poll_run_settled(q, spec_no_receipts((k - 1) as nat));
        } else {
            lemma_poll_run_no_receipts(q, (k - 1) as nat);
        }
    }
}

/// A collaborator that never returns a receipt exhausts the retry budget:
/// after exactly `max_attempts` missed rounds the poll is timed out with
/// every attempt spent, and after any fewer it is still pending with exactly
/// that many spent.
pub proof fn lemma_poll_exhaustion(tx_id: B256, max_attempts: u64)
    requires
        max_attempts >= 1,
    ensures
        spec_poll_run(spec_fresh_poll(tx_id, max_attempts), spec_no_receipts(max_attempts as nat))
            == (ReceiptPoll {
            tx_id,
            max_attempts,
            attempts: max_attempts,
            status: PollStatus::TimedOut,
        }),
        forall|k: nat|
            k < max_attempts ==> spec_poll_run(
                spec_fresh_poll(tx_id, max_attempts),
                spec_no_receipts(k),
            ) == (ReceiptPoll { tx_id, max_attempts, attempts: k as u64, status: PollStatus::Pending }),
{
    lemma_poll_run_no_receipts(spec_fresh_poll(tx_id, max_attempts), max_attempts as nat);
    assert forall|k: nat| k < max_attempts implies spec_poll_run(
        spec_fresh_poll(tx_id, max_attempts),
        spec_no_receipts(k),
    ) == (ReceiptPoll { tx_id, max_attempts, attempts: k as u64, status: PollStatus::Pending }) by {
        lemma_poll_run_no_receipts(spec_fresh_poll(tx_id, max_attempts), k);
    }
}

} // verus!
