//! The decisions of the execution pipeline: checksum validation before submission, how one
//! attempt's outcome becomes a result, and the run over several targets.
use vstd::prelude::*;

use crate::error::{Error, LedgerTask};
use crate::ledger_id::LedgerId;
use crate::transaction::AnyTransactionData;

verus! {

/// The precheck status of an accepted submission.
pub const STATUS_OK: i32 = 0;

/// Validates a transaction's checksums before it is executed.
///
/// A transaction without checksums passes without a ledger; one with a checksum needs the
/// client's ledger id and passes when every checksum is the one the ledger gives.
pub fn validate_for_execution(data: &AnyTransactionData, ledger_id: Option<&LedgerId>) -> (r:
    Result<(), Error>)
    ensures
        !data.spec_has_checksums() ==> r is Ok,
        data.spec_has_checksums() && ledger_id is None ==> r == Err::<(), Error>(
            Error::CannotPerformTaskWithoutLedgerId { task: LedgerTask::ValidateChecksum },
        ),
        data.spec_has_checksums() && ledger_id is Some ==> (r is Ok <==> data.checksums_valid(
            ledger_id->0@,
        )),
        data.spec_has_checksums() && ledger_id is Some && r is Err ==> r->Err_0 is BadEntityId,
{
    if !data.has_checksums() {
        return Ok(());
    }
    match ledger_id {
        Some(l) => data.validate_checksums(l),
        None => Err(Error::CannotPerformTaskWithoutLedgerId { task: LedgerTask::ValidateChecksum }),
    }
}

/// What one attempt against one target came to.
#[derive(Clone, Debug)]
pub enum AttemptOutcome<R> {
    /// The target answered, with its precheck status.
    Answered { precheck_status: i32, response: R },
    /// The transport failed before an answer came, with its status code.
    Unanswered { code: i32 },
    /// The caller's deadline passed first.
    TimedOut,
}

/// The result of an attempt: the response when the target accepted, else why not.
pub open spec fn outcome_result<R>(outcome: AttemptOutcome<R>) -> Result<R, Error> {
    match outcome {
        AttemptOutcome::Answered { precheck_status, response } => if precheck_status
            == STATUS_OK {
            Ok(response)
        } else {
            Err(Error::RemoteRejected { status: precheck_status })
        },
        AttemptOutcome::Unanswered { code } => Err(Error::Transport { code }),
        AttemptOutcome::TimedOut => Err(Error::TimedOut),
    }
}

/// The result of one attempt. A timeout is reported apart from a rejection.
pub fn attempt_result<R>(outcome: AttemptOutcome<R>) -> (r: Result<R, Error>)
    ensures
        r == outcome_result(outcome),
{
    match outcome {
        AttemptOutcome::Answered { precheck_status, response } => {
            if precheck_status == STATUS_OK {
                Ok(response)
            } else {
                Err(Error::RemoteRejected { status: precheck_status })
            }
        },
        AttemptOutcome::Unanswered { code } => Err(Error::Transport { code }),
        AttemptOutcome::TimedOut => Err(Error::TimedOut),
    }
}

/// The results of an execute-all run, one per attempt, in the order of the attempts.
pub open spec fn execute_all_results<R>(outcomes: Seq<AttemptOutcome<R>>) -> Seq<Result<R, Error>>
    decreases outcomes.len(),
{
    if outcomes.len() == 0 {
        Seq::empty()
    } else {
        execute_all_results(outcomes.drop_last()).push(outcome_result(outcomes.last()))
    }
}

/// A run of one operation against several targets in order, one attempt each.
///
/// A failed attempt does not end the run: every target is attempted, and each result is
/// kept, so a partial success is reported as such.
pub struct ExecuteAll<R> {
    total: usize,
    results: Vec<Result<R, Error>>,
    outcomes: Ghost<Seq<AttemptOutcome<R>>>,
}

impl<R> View for ExecuteAll<R> {
    type V = (nat, Seq<Result<R, Error>>);

    closed spec fn view(&self) -> (nat, Seq<Result<R, Error>>) {
        (self.total as nat, self.results@)
    }
}

impl<R> ExecuteAll<R> {
    /// The outcomes recorded so far, in order.
    pub closed spec fn recorded(&self) -> Seq<AttemptOutcome<R>> {
        self.outcomes@
    }

    pub closed spec fn wf(&self) -> bool {
        &&& self.results@.len() <= self.total
        &&& self.results@ == execute_all_results(self.outcomes@)
    }

    /// A run over `total` targets, none attempted yet.
    pub fn new(total: usize) -> (r: ExecuteAll<R>)
        ensures
            r.wf(),
            r@.0 == total,
            r@.1 == Seq::<Result<R, Error>>::empty(),
            r.recorded() == Seq::<AttemptOutcome<R>>::empty(),
    {
        let r = ExecuteAll { total, results: Vec::new(), outcomes: Ghost(Seq::empty()) };
        assert(r.results@ =~= execute_all_results(r.outcomes@));
        r
    }

    /// The target to attempt next, counting from 0, or `None` once every target was.
    pub fn next_target(&self) -> (r: Option<usize>)
        requires
            self.wf(),
        ensures
            self@.1.len() < self@.0 ==> r == Some(self@.1.len() as usize),
            self@.1.len() == self@.0 ==> r is None,
    {
        if self.results.len() < self.total {
            Some(self.results.len())
        } else {
            None
        }
    }

    /// Records the outcome of the attempt against the next target.
    pub fn record(&mut self, outcome: AttemptOutcome<R>)
        requires
            old(self).wf(),
            old(self)@.1.len() < old(self)@.0,
        ensures
            final(self).wf(),
            final(self)@.0 == old(self)@.0,
            final(self)@.1 == old(self)@.1.push(outcome_result(outcome)),
            final(self).recorded() == old(self).recorded().push(outcome),
    {
        let ghost before = self.outcomes@;
        let r = attempt_result(outcome);
        self.results.push(r);
        self.outcomes = Ghost(before.push(outcome));
        assert(self.outcomes@.drop_last() =~= before);
    }

    /// The results, one per attempted target, in order.
    pub fn into_results(self) -> (r: Vec<Result<R, Error>>)
        requires
            self.wf(),
        ensures
            r@ == self@.1,
            r@ == execute_all_results(self.recorded()),
    {
        self.results
    }
}

/// Recording the outcomes of the attempts one after another reports, for each target, the
/// result of its own attempt: a failure stands beside the successes before and after it.
pub proof fn lemma_execute_all_reports_each<R>(outcomes: Seq<AttemptOutcome<R>>)
    ensures
        execute_all_results(outcomes).len() == outcomes.len(),
        forall|i: int|
            0 <= i < outcomes.len() ==> #[trigger] execute_all_results(outcomes)[i]
                == outcome_result(outcomes[i]),
    decreases outcomes.len(),
{
    if outcomes.len() > 0 {
        lemma_execute_all_reports_each(outcomes.drop_last());
        let prev = execute_all_results(outcomes.drop_last());
        assert forall|i: int| 0 <= i < outcomes.len() implies #[trigger] execute_all_results(
            outcomes,
        )[i] == outcome_result(outcomes[i]) by {
            if i < outcomes.len() - 1 {
                assert(prev[i] == outcome_result(outcomes.drop_last()[i]));
            }
        }
    }
}

} // verus!
