//! The mining worker: when it begins a round, tries a nonce, reports and waits,
//! and what it submits and reports over all rounds.

use crate::bytes::{
    be_encoding, be_value, law_encoding_reads_back, le_encoding, le_value, lemma_be_encoding_len,
};
use crate::hashing::sha256_digest;
use crate::job::{header_of, JobView};
use crate::miner::{
    extranonce2_len, extranonce_of_round, hashrate_of, id_of, law_extranonce_moves_on,
    law_extranonces_differ, law_rounds_get_the_next_extranonce, law_submission_tells_the_share,
    lemma_nonce_bytes, next_extranonce, report_is_due, round_of, submission_of, Attempt, HashReport,
    Miner, Round, RoundView, Share, REPORT_INTERVAL_NANOS,
};
use crate::protocol::PoolState;
use crate::target::target_value;
use vstd::arithmetic::power::pow;
use vstd::prelude::*;

verus! {

/// One step of a worker.
pub enum WorkerStep {
    /// A round begins for a job. `size` is the size that the pool gave the second
    /// extra nonce.
    Begin { job: JobView, extranonce1: Seq<u8>, size: nat, target: nat },
    /// The next nonce of the round is tried while the pool works on `current`,
    /// and after a hash a report is asked for, `elapsed_nanos` after the last.
    Try { current: Option<Seq<char>>, elapsed_nanos: nat },
}

/// A share that a worker has submitted.
pub struct SubmittedShare {
    /// The number of the round that found it.
    pub round: nat,
    pub job_id: Seq<char>,
    pub extranonce2: Seq<u8>,
    pub ntime: Seq<u8>,
    pub nonce: nat,
}

impl SubmittedShare {
    /// The line that submits it.
    pub open spec fn line(self, wallet: Seq<char>) -> Seq<char> {
        submission_of(wallet, self.job_id, self.extranonce2, self.ntime, self.nonce)
    }
}

/// What a worker has done.
pub struct WorkerView {
    /// How many rounds were begun.
    pub rounds: nat,
    /// The extra nonce of the current round.
    pub extranonce2: nat,
    pub round: Option<RoundView>,
    /// The headers that were hashed.
    pub hashed: Seq<Seq<u8>>,
    /// The hash count.
    pub hashes: nat,
    /// How many hashes the last report covered.
    pub reported: nat,
    pub shares: Seq<SubmittedShare>,
    /// The hash count and the hash rate of each report.
    pub reports: Seq<(nat, nat)>,
}

impl WorkerView {
    /// A worker that has done nothing yet.
    pub open spec fn start() -> WorkerView {
        WorkerView {
            rounds: 0,
            extranonce2: 1,
            round: None,
            hashed: Seq::empty(),
            hashes: 0,
            reported: 0,
            shares: Seq::empty(),
            reports: Seq::empty(),
        }
    }

    /// The worker after it has begun a round.
    pub open spec fn begun(
        self,
        job: JobView,
        extranonce1: Seq<u8>,
        size: nat,
        target: nat,
    ) -> WorkerView {
        let extranonce2 = next_extranonce(self.extranonce2);
        WorkerView {
            rounds: self.rounds + 1,
            extranonce2,
            round: Some(
                round_of(
                    job,
                    extranonce1,
                    be_encoding(extranonce2, extranonce2_len(size)),
                    target,
                ),
            ),
            ..self
        }
    }

    /// The worker after it has hashed the next nonce of a round.
    pub open spec fn hashed_next(self, round: RoundView) -> WorkerView {
        WorkerView {
            round: Some(round.advanced()),
            hashed: self.hashed.push(header_of(round.head, round.nonce)),
            hashes: self.hashes + 1,
            shares: if round.finds_share() {
                self.shares.push(
                    SubmittedShare {
                        round: self.rounds,
                        job_id: round.job_id,
                        extranonce2: round.extranonce2,
                        ntime: round.ntime,
                        nonce: round.nonce,
                    },
                )
            } else {
                self.shares
            },
            ..self
        }
    }

    /// The worker after it was asked for a report.
    pub open spec fn asked(self, elapsed_nanos: nat) -> WorkerView {
        if report_is_due(elapsed_nanos) {
            WorkerView {
                reported: self.hashes,
                reports: self.reports.push(
                    (self.hashes, hashrate_of(self.hashes as int, self.reported as int) as nat),
                ),
                ..self
            }
        } else {
            self
        }
    }

    /// The worker after a step.
    pub open spec fn after(self, step: WorkerStep) -> WorkerView {
        match step {
            WorkerStep::Begin { job, extranonce1, size, target } => self.begun(
                job,
                extranonce1,
                size,
                target,
            ),
            WorkerStep::Try { current, elapsed_nanos } => match self.round {
                Some(round) => if round.is_live(current) {
                    self.hashed_next(round).asked(elapsed_nanos)
                } else {
                    self
                },
                None => self,
            },
        }
    }

    /// A fresh worker after several steps.
    pub open spec fn run(steps: Seq<WorkerStep>) -> WorkerView
        decreases steps.len(),
    {
        if steps.len() == 0 {
            WorkerView::start()
        } else {
            WorkerView::run(steps.drop_last()).after(steps.last())
        }
    }

    /// The hash count of the report before the one at an index, or zero.
    pub open spec fn count_before(self, i: int) -> nat {
        if i == 0 {
            0
        } else {
            self.reports[i - 1].0
        }
    }

    /// The extra nonces are those of the rounds, and shares come in the order of
    /// their rounds and nonces.
    spec fn shares_in_order(self, size: nat) -> bool {
        let len = extranonce2_len(size);
        &&& self.extranonce2 == extranonce_of_round(1, self.rounds)
        &&& self.round matches Some(round) ==> {
            &&& round.extranonce2 == be_encoding(self.extranonce2, len)
            &&& round.nonce <= 100_000
            &&& self.rounds > 0
        }
        &&& forall|i: int|
            #![trigger self.shares[i]]
            0 <= i < self.shares.len() ==> {
                let share = self.shares[i];
                &&& 0 < share.round <= self.rounds
                &&& share.extranonce2 == be_encoding(extranonce_of_round(1, share.round), len)
                &&& share.nonce < 100_000
                &&& share.round == self.rounds ==> self.round is Some && share.nonce
                    < self.round->0.nonce
            }
        &&& forall|i: int, j: int|
            #![trigger self.shares[i], self.shares[j]]
            0 <= i < j < self.shares.len() ==> self.shares[i].round < self.shares[j].round
                || self.shares[i].round == self.shares[j].round && self.shares[i].nonce
                < self.shares[j].nonce
    }

    /// Each report covers what was hashed since the one before.
    spec fn reports_in_order(self) -> bool {
        &&& self.hashes == self.hashed.len()
        &&& self.reported <= self.hashes
        &&& self.reported == self.count_before(self.reports.len() as int)
        &&& forall|i: int|
            #![trigger self.reports[i]]
            0 <= i < self.reports.len() ==> self.reports[i].0 > self.count_before(i)
                && self.reports[i].1 == 2 * (self.reports[i].0 - self.count_before(i))
    }
}

/// What a worker has to do next.
#[derive(Clone, Copy, Debug, PartialEq, Eq, Structural)]
pub enum WorkerPhase {
    /// Begin a round.
    Beginning,
    /// Try the next nonce of the round.
    Trying,
    /// Report, after a hash.
    Reporting,
}

/// How long a worker waits, in milliseconds, where the pool has no job.
pub const NO_JOB_WAIT_MILLIS: u64 = 200;

/// A mining worker.
pub struct Worker {
    miner: Miner,
    round: Option<Round>,
    phase: WorkerPhase,
    steps: Ghost<Seq<WorkerStep>>,
    done: Ghost<WorkerView>,
}

impl View for Worker {
    type V = WorkerView;

    closed spec fn view(&self) -> WorkerView {
        self.done@
    }
}

/// The steps of a worker once its last hash was followed by a report.
pub open spec fn with_report(steps: Seq<WorkerStep>, elapsed_nanos: nat) -> Seq<WorkerStep> {
    match steps.last() {
        WorkerStep::Try { current, .. } => steps.drop_last().push(
            WorkerStep::Try { current, elapsed_nanos },
        ),
        _ => steps,
    }
}

impl Worker {
    /// The steps that this worker has made. A hash that no report was asked for
    /// yet stands there as one after which no report was due.
    pub closed spec fn steps(self) -> Seq<WorkerStep> {
        self.steps@
    }

    /// What this worker has to do next.
    pub closed spec fn next_phase(self) -> WorkerPhase {
        self.phase
    }

    /// The counters and the round are those of the view, and what is to be done
    /// next fits them.
    pub closed spec fn tied(self) -> bool {
        &&& self.miner.wf()
        &&& self.miner.hashes == self.done@.hashes
        &&& self.miner.reported == self.done@.reported
        &&& self.miner.extranonce2 == self.done@.extranonce2
        &&& match (self.round, self.done@.round) {
            (Some(round), Some(view)) => round@ == view,
            (None, None) => true,
            _ => false,
        }
        &&& self.phase != WorkerPhase::Beginning ==> self.round is Some
        &&& self.phase == WorkerPhase::Reporting ==> {
            let steps = self.steps@;
            &&& steps.len() > 0
            &&& steps.last() matches WorkerStep::Try { current, elapsed_nanos }
            &&& elapsed_nanos == 0
            &&& WorkerView::run(steps.drop_last()).round matches Some(round)
            &&& round.is_live(current)
        }
    }

    /// What the worker has done is what a fresh one does in its steps.
    pub open spec fn wf(self) -> bool {
        &&& self.tied()
        &&& self@ == WorkerView::run(self.steps())
        &&& self.next_phase() != WorkerPhase::Beginning ==> self@.round is Some
    }

    /// A worker that has done nothing yet.
    pub fn new() -> (worker: Worker)
        ensures
            worker.wf(),
            worker@ == WorkerView::start(),
            worker.steps() == Seq::<WorkerStep>::empty(),
            worker.next_phase() == WorkerPhase::Beginning,
    {
        Worker {
            miner: Miner::new(),
            round: None,
            phase: WorkerPhase::Beginning,
            steps: Ghost(Seq::empty()),
            done: Ghost(WorkerView::start()),
        }
    }

    /// What is to be done next.
    pub fn phase(&self) -> (phase: WorkerPhase)
        ensures
            phase == self.next_phase(),
    {
        self.phase
    }

    /// Begins a round for the pool's job, at a difficulty that is given in
    /// millionths. Where the pool has no job, it returns the milliseconds to
    /// wait before the next attempt.
    pub fn begin(&mut self, pool: &PoolState, scaled_difficulty: u64) -> (wait_millis: Option<u64>)
        requires
            old(self).wf(),
            old(self).next_phase() == WorkerPhase::Beginning,
        ensures
            final(self).wf(),
            match pool@.job {
                None => {
                    &&& wait_millis == Some(200u64)
                    &&& final(self)@ == old(self)@
                    &&& final(self).steps() == old(self).steps()
                    &&& final(self).next_phase() == WorkerPhase::Beginning
                },
                Some(job) => {
                    &&& wait_millis is None
                    &&& final(self)@ == old(self)@.begun(
                        job,
                        pool@.extranonce1,
                        pool@.extranonce2_size as nat,
                        target_value(scaled_difficulty as nat),
                    )
                    &&& final(self).steps() == old(self).steps().push(
                        WorkerStep::Begin {
                            job,
                            extranonce1: pool@.extranonce1,
                            size: pool@.extranonce2_size as nat,
                            target: target_value(scaled_difficulty as nat),
                        },
                    )
                    &&& final(self).next_phase() == WorkerPhase::Trying
                },
            },
    {
        match &pool.job {
            None => Some(NO_JOB_WAIT_MILLIS),
            Some(job) => {
                let round: Round = self.miner.begin_round(
                    job,
                    pool.extranonce1.as_slice(),
                    pool.extranonce2_size,
                    scaled_difficulty,
                );
                self.round = Some(round);
                self.phase = WorkerPhase::Trying;
                let ghost step = WorkerStep::Begin {
                    job: job@,
                    extranonce1: pool@.extranonce1,
                    size: pool@.extranonce2_size as nat,
                    target: target_value(scaled_difficulty as nat),
                };
                proof {
                    assert(old(self).steps@.push(step).drop_last() =~= old(self).steps@);
                }
                self.steps = Ghost(self.steps@.push(step));
                self.done = Ghost(self.done@.after(step));
                None
            },
        }
    }

    /// Tries the next nonce of the round, while the pool works on `current_job`.
    /// After a hash a report is to be asked for; where the round is over, a new
    /// one is to be begun.
    pub fn try_nonce(&mut self, current_job: Option<&str>, wallet: &str) -> (share: Option<Share>)
        requires
            old(self).wf(),
            old(self).next_phase() == WorkerPhase::Trying,
            old(self)@.round->0.is_live(id_of(current_job)) ==> old(self)@.hashes < u64::MAX,
        ensures
            final(self).wf(),
            ({
                let round = old(self)@.round->0;
                if round.is_live(id_of(current_job)) {
                    &&& final(self)@ == old(self)@.hashed_next(round)
                    &&& final(self).steps() == old(self).steps().push(
                        WorkerStep::Try { current: id_of(current_job), elapsed_nanos: 0 },
                    )
                    &&& final(self).next_phase() == WorkerPhase::Reporting
                    &&& share is Some <==> round.finds_share()
                    &&& share matches Some(s) ==> {
                        &&& round.describes(s, wallet@)
                        &&& s.submission@ == final(self)@.shares.last().line(wallet@)
                    }
                } else {
                    &&& share is None
                    &&& final(self)@ == old(self)@
                    &&& final(self).steps() == old(self).steps()
                    &&& final(self).next_phase() == WorkerPhase::Beginning
                }
            }),
    {
        let ghost before = self.done@.round->0;
        let ghost step = WorkerStep::Try { current: id_of(current_job), elapsed_nanos: 0 };
        match self.round.take() {
            Some(mut round) => {
                let attempt: Attempt = self.miner.try_nonce(&mut round, current_job, wallet);
                self.round = Some(round);
                match attempt {
                    Attempt::Over => {
                        self.phase = WorkerPhase::Beginning;
                        None
                    },
                    Attempt::Hashed(share) => {
                        self.phase = WorkerPhase::Reporting;
                        proof {
                            assert(old(self).steps@.push(step).drop_last() =~= old(self).steps@);
                        }
                        self.steps = Ghost(self.steps@.push(step));
                        self.done = Ghost(self.done@.hashed_next(before));
                        share
                    },
                }
            },
            None => None,
        }
    }

    /// Reports the hash count where that is due, so many nanoseconds after the
    /// last report.
    pub fn report(&mut self, elapsed_nanos: u128) -> (report: Option<HashReport>)
        requires
            old(self).wf(),
            old(self).next_phase() == WorkerPhase::Reporting,
            report_is_due(elapsed_nanos as nat) ==> hashrate_of(
                old(self)@.hashes as int,
                old(self)@.reported as int,
            ) <= u64::MAX,
        ensures
            final(self).wf(),
            final(self)@ == old(self)@.asked(elapsed_nanos as nat),
            final(self).steps() == with_report(old(self).steps(), elapsed_nanos as nat),
            final(self).next_phase() == WorkerPhase::Trying,
            report is Some <==> report_is_due(elapsed_nanos as nat),
            report matches Some(r) ==> (r.hashes as nat, r.hashrate as nat)
                == final(self)@.reports.last(),
    {
        let report: Option<HashReport> = self.miner.report(elapsed_nanos);
        self.phase = WorkerPhase::Trying;
        let ghost steps = with_report(self.steps@, elapsed_nanos as nat);
        proof {
            assert(steps.drop_last() =~= self.steps@.drop_last());
        }
        self.steps = Ghost(steps);
        self.done = Ghost(self.done@.asked(elapsed_nanos as nat));
        report
    }

    /// Whether the hash count has room for the next nonce, where that would be
    /// hashed.
    pub fn can_try(&self, current_job: Option<&str>) -> (result: bool)
        requires
            self.wf(),
            self.next_phase() == WorkerPhase::Trying,
        ensures
            result == (self@.round->0.is_live(id_of(current_job)) ==> self@.hashes < u64::MAX),
    {
        match &self.round {
            Some(round) => self.miner.hashes < u64::MAX || !round.is_live(current_job),
            None => false,
        }
    }

    /// Whether the hash rate fits its type, where a report is due.
    pub fn can_report(&self, elapsed_nanos: u128) -> (result: bool)
        requires
            self.wf(),
        ensures
            result == (report_is_due(elapsed_nanos as nat) ==> hashrate_of(
                self@.hashes as int,
                self@.reported as int,
            ) <= u64::MAX),
    {
        elapsed_nanos <= REPORT_INTERVAL_NANOS || self.miner.hashes - self.miner.reported
            <= u64::MAX / 2
    }
}

/// Whether a round that a step begins has the given size of the extra nonce.
pub open spec fn has_size(step: WorkerStep, size: nat) -> bool {
    step matches WorkerStep::Begin { size: s, .. } ==> s == size
}

/// Whether the pool gave the extra nonce the same size throughout.
pub open spec fn same_size(steps: Seq<WorkerStep>, size: nat) -> bool {
    forall|i: int| 0 <= i < steps.len() ==> has_size(#[trigger] steps[i], size)
}

/// As long as the size of the extra nonce stays the same, and no more rounds were
/// begun than there are values in its bytes, no two submitted shares have the
/// same extra nonce and nonce, and no line is submitted twice, whatever jobs came.
pub proof fn law_no_share_is_submitted_twice(
    steps: Seq<WorkerStep>,
    size: nat,
    wallet: Seq<char>,
    i: int,
    j: int,
)
    requires
        same_size(steps, size),
        WorkerView::run(steps).rounds <= pow(256, extranonce2_len(size)),
        0 <= i < j < WorkerView::run(steps).shares.len(),
    ensures
        ({
            let a = WorkerView::run(steps).shares[i];
            let b = WorkerView::run(steps).shares[j];
            &&& (a.extranonce2, a.nonce) != (b.extranonce2, b.nonce)
            &&& a.line(wallet) != b.line(wallet)
        }),
{
    lemma_shares_in_order(steps, size);
    let a = WorkerView::run(steps).shares[i];
    let b = WorkerView::run(steps).shares[j];
    if a.round < b.round {
        law_extranonces_differ(1, size, a.round, b.round);
    }
    if a.line(wallet) == b.line(wallet) {
        law_submission_tells_the_share(
            (wallet, wallet),
            (a.job_id, b.job_id),
            (a.extranonce2, b.extranonce2),
            (a.ntime, b.ntime),
            (a.nonce as u32, b.nonce as u32),
        );
    }
}

/// Each report has a higher hash count than the one before, and its rate is
/// twice the difference. The count is the number of headers that were hashed
/// since the worker started, over all rounds and jobs.
pub proof fn law_reports_follow_the_hashes(steps: Seq<WorkerStep>, i: int)
    requires
        0 <= i < WorkerView::run(steps).reports.len(),
    ensures
        ({
            let worker = WorkerView::run(steps);
            &&& worker.hashes == worker.hashed.len()
            &&& worker.reports[i].0 > worker.count_before(i)
            &&& worker.reports[i].1 == 2 * (worker.reports[i].0 - worker.count_before(i))
        }),
{
    lemma_reports_in_order(steps);
}

/// A report gives the hash count at the time that it is made.
pub proof fn law_report_gives_the_count(steps: Seq<WorkerStep>, step: WorkerStep)
    requires
        WorkerView::run(steps.push(step)).reports.len() > WorkerView::run(
            steps,
        ).reports.len(),
    ensures
        ({
            let worker = WorkerView::run(steps.push(step));
            &&& worker.reports.drop_last() == WorkerView::run(steps).reports
            &&& worker.reports.last().0 == worker.hashed.len()
        }),
{
    assert(steps.push(step).drop_last() =~= steps);
    lemma_reports_in_order(steps.push(step));
    let before = WorkerView::run(steps);
    let after = WorkerView::run(steps.push(step));
    assert(after.reports.drop_last() =~= before.reports);
}

proof fn lemma_shares_in_order(steps: Seq<WorkerStep>, size: nat)
    requires
        same_size(steps, size),
    ensures
        WorkerView::run(steps).shares_in_order(size),
    decreases steps.len(),
{
    if steps.len() > 0 {
        let earlier = steps.drop_last();
        assert forall|i: int| 0 <= i < earlier.len() implies has_size(
            #[trigger] earlier[i],
            size,
        ) by {
            assert(has_size(steps[i], size));
        }
        lemma_shares_in_order(steps.drop_last(), size);
        assert(has_size(steps[steps.len() - 1], size));
        let before = WorkerView::run(steps.drop_last());
        let after = WorkerView::run(steps);
        law_extranonce_moves_on(1, before.rounds);
        assert(after.shares_in_order(size));
    }
}

proof fn lemma_reports_in_order(steps: Seq<WorkerStep>)
    ensures
        WorkerView::run(steps).reports_in_order(),
    decreases steps.len(),
{
    if steps.len() > 0 {
        lemma_reports_in_order(steps.drop_last());
        let before = WorkerView::run(steps.drop_last());
        let after = WorkerView::run(steps);
        assert forall|i: int|
            #![trigger after.reports[i]]
            0 <= i < after.reports.len() implies after.reports[i].0 > after.count_before(i)
            && after.reports[i].1 == 2 * (after.reports[i].0 - after.count_before(i)) by {
            if i < before.reports.len() {
                assert(after.reports[i] == before.reports[i]);
                assert(after.count_before(i) == before.count_before(i));
            } else {
                assert(after.count_before(i) == before.count_before(i));
            }
        }
    }
}

/// Trying a nonce while the pool works on another job than the round's, or on
/// none, does nothing: nothing is hashed, submitted or reported, whatever nonce
/// the round has reached. Nor does trying a nonce after the last of a round, or
/// without one.
pub proof fn law_stale_rounds_do_nothing(
    worker: WorkerView,
    current: Option<Seq<char>>,
    elapsed_nanos: nat,
)
    requires
        worker.round matches Some(round) ==> current != Some(round.job_id) || round.nonce
            >= 100_000,
    ensures
        worker.after(WorkerStep::Try { current, elapsed_nanos }) == worker,
{
}

/// Every share is for the job that the pool worked on when its nonce was tried:
/// a step adds at most one share and keeps the others, and where it adds one the
/// pool works on the share's job.
pub proof fn law_shares_are_for_the_current_job(
    steps: Seq<WorkerStep>,
    current: Option<Seq<char>>,
    elapsed_nanos: nat,
)
    ensures
        ({
            let before = WorkerView::run(steps);
            let after = WorkerView::run(steps.push(WorkerStep::Try { current, elapsed_nanos }));
            ||| after.shares == before.shares
            ||| {
                &&& after.shares.len() == before.shares.len() + 1
                &&& after.shares.drop_last() == before.shares
                &&& current == Some(after.shares.last().job_id)
            }
        }),
{
    let step = WorkerStep::Try { current, elapsed_nanos };
    assert(steps.push(step).drop_last() =~= steps);
    let before = WorkerView::run(steps);
    let after = WorkerView::run(steps.push(step));
    if after.shares.len() == before.shares.len() + 1 {
        assert(after.shares.drop_last() =~= before.shares);
    }
}

/// Trying a nonce while the pool works on the round's job hashes one header: the
/// round's head and four bytes that stand for the nonce with the least significant
/// first. The round moves on to the next nonce and is otherwise the same.
pub proof fn law_live_rounds_hash_one_header(
    worker: WorkerView,
    round: RoundView,
    nonce_bytes: Seq<u8>,
    elapsed_nanos: nat,
)
    requires
        worker.round == Some(round),
        round.nonce < 100_000,
        nonce_bytes.len() == 4,
        le_value(nonce_bytes) == round.nonce,
    ensures
        ({
            let step = WorkerStep::Try { current: Some(round.job_id), elapsed_nanos };
            let after = worker.after(step);
            &&& after.hashed == worker.hashed.push(round.head + nonce_bytes)
            &&& after.hashes == worker.hashes + 1
            &&& after.round == Some(RoundView { nonce: round.nonce + 1, ..round })
            &&& after.rounds == worker.rounds
            &&& after.extranonce2 == worker.extranonce2
        }),
{
    lemma_nonce_bytes(round.nonce, nonce_bytes);
}

/// A header that was hashed gives a share exactly where its double hash, read with
/// the least significant byte first, is not above the round's target. The share
/// has the round's job, extra nonce and time, and the nonce that was tried.
pub proof fn law_live_rounds_submit_what_meets_the_target(
    worker: WorkerView,
    round: RoundView,
    elapsed_nanos: nat,
)
    requires
        worker.round == Some(round),
        round.nonce < 100_000,
    ensures
        ({
            let step = WorkerStep::Try { current: Some(round.job_id), elapsed_nanos };
            let after = worker.after(step);
            let digest = sha256_digest(sha256_digest(after.hashed.last()));
            if le_value(digest) <= round.target {
                &&& after.shares.len() == worker.shares.len() + 1
                &&& after.shares.drop_last() == worker.shares
                &&& after.shares.last().round == worker.rounds
                &&& after.shares.last().job_id == round.job_id
                &&& after.shares.last().extranonce2 == round.extranonce2
                &&& after.shares.last().ntime == round.ntime
                &&& after.shares.last().nonce == round.nonce
            } else {
                after.shares == worker.shares
            }
        }),
{
    let step = WorkerStep::Try { current: Some(round.job_id), elapsed_nanos };
    let after = worker.after(step);
    if after.shares.len() == worker.shares.len() + 1 {
        assert(after.shares.drop_last() =~= worker.shares);
    }
}

/// After a hash a report is made exactly where more than half a second has passed.
/// It gives the count of all hashes, and twice as many per second as were hashed
/// since the last, and it becomes the last.
pub proof fn law_live_rounds_report_every_half_second(
    worker: WorkerView,
    round: RoundView,
    elapsed_nanos: nat,
)
    requires
        worker.round == Some(round),
        round.nonce < 100_000,
        worker.reported <= worker.hashes,
    ensures
        ({
            let step = WorkerStep::Try { current: Some(round.job_id), elapsed_nanos };
            let after = worker.after(step);
            if elapsed_nanos > 500_000_000 {
                &&& after.reports == worker.reports.push(
                    (
                        worker.hashes + 1,
                        (2 * (worker.hashes + 1) - 2 * worker.reported) as nat,
                    ),
                )
                &&& after.reported == worker.hashes + 1
            } else {
                &&& after.reports == worker.reports
                &&& after.reported == worker.reported
            }
        }),
{
}

/// Beginning a round moves on to the next extra nonce, of which the round gets as
/// many of the lowest bytes as the pool asked for. It starts at the first nonce,
/// for the given job and target, and nothing is hashed, submitted or reported.
pub proof fn law_beginning_a_round(
    worker: WorkerView,
    job: JobView,
    extranonce1: Seq<u8>,
    size: nat,
    target: nat,
)
    requires
        worker.extranonce2 <= u64::MAX,
    ensures
        ({
            let after = worker.after(WorkerStep::Begin { job, extranonce1, size, target });
            &&& after.rounds == worker.rounds + 1
            &&& worker.extranonce2 < u64::MAX ==> after.extranonce2 == worker.extranonce2 + 1
            &&& worker.extranonce2 == u64::MAX ==> after.extranonce2 == 0
            &&& after.round matches Some(round)
            &&& round.job_id == job.job_id
            &&& round.ntime == job.ntime
            &&& round.target == target
            &&& round.nonce == 0
            &&& size <= 8 ==> round.extranonce2.len() == size
            &&& size > 8 ==> round.extranonce2.len() == 8
            &&& be_value(round.extranonce2) == after.extranonce2 as int % pow(
                256,
                round.extranonce2.len(),
            )
            &&& round == round_of(job, extranonce1, round.extranonce2, target)
            &&& after.hashed == worker.hashed
            &&& after.hashes == worker.hashes
            &&& after.reported == worker.reported
            &&& after.shares == worker.shares
            &&& after.reports == worker.reports
        }),
{
    law_rounds_get_the_next_extranonce(worker.extranonce2 as u64, size);
}

/// How many of some steps begin a round.
pub open spec fn begins(steps: Seq<WorkerStep>) -> nat
    decreases steps.len(),
{
    if steps.len() == 0 {
        0
    } else {
        begins(steps.drop_last()) + if steps.last() is Begin {
            1nat
        } else {
            0
        }
    }
}

/// A worker has begun as many rounds as it made such steps, and its extra nonce is
/// one more than that, within eight bytes.
pub proof fn law_every_round_has_its_extranonce(steps: Seq<WorkerStep>)
    ensures
        WorkerView::run(steps).rounds == begins(steps),
        WorkerView::run(steps).extranonce2 == (1 + begins(steps)) % 0x1_0000_0000_0000_0000,
    decreases steps.len(),
{
    if steps.len() > 0 {
        law_every_round_has_its_extranonce(steps.drop_last());
    }
}

/// Whether steps try nonces while the pool works on a given job.
pub open spec fn are_tries_for(steps: Seq<WorkerStep>, job_id: Seq<char>) -> bool {
    forall|i: int|
        0 <= i < steps.len() ==> (#[trigger] steps[i] matches WorkerStep::Try { current, .. }
            && current == Some(job_id))
}

/// As long as the pool stays with its job, a round hashes one header for each time
/// that it is asked, up to 100 000 of them and no more. The header at each index
/// has the head of the round and the index as its nonce.
pub proof fn law_rounds_try_every_nonce(
    steps: Seq<WorkerStep>,
    begin: WorkerStep,
    tries: Seq<WorkerStep>,
    i: int,
)
    requires
        begin is Begin,
        are_tries_for(tries, begin->job.job_id),
    ensures
        ({
            let before = WorkerView::run(steps);
            let started = WorkerView::run(steps.push(begin));
            let after = WorkerView::run(steps.push(begin) + tries);
            let count = if tries.len() < 100_000 {
                tries.len() as int
            } else {
                100_000
            };
            &&& started.round is Some
            &&& after.round == Some(RoundView { nonce: count as nat, ..started.round->0 })
            &&& after.hashed.len() == before.hashed.len() + count
            &&& after.hashed.take(before.hashed.len() as int) == before.hashed
            &&& 0 <= i < count ==> {
                let header = after.hashed[before.hashed.len() + i];
                let head = started.round->0.head;
                &&& header.len() == head.len() + 4
                &&& header.take(head.len() as int) == head
                &&& le_value(header.skip(head.len() as int)) == i
            }
        }),
    decreases tries.len(),
{
    let first = steps.push(begin);
    assert(first.drop_last() =~= steps);
    let before = WorkerView::run(steps);
    let started = WorkerView::run(first);
    let head = started.round->0.head;
    if tries.len() == 0 {
        assert(first + tries =~= first);
        assert(before.hashed.take(before.hashed.len() as int) =~= before.hashed);
    } else {
        let shorter = tries.drop_last();
        assert forall|j: int| 0 <= j < shorter.len() implies (
        #[trigger] shorter[j] matches WorkerStep::Try { current, .. } && current == Some(
            begin->job.job_id,
        )) by {
            assert(shorter[j] == tries[j]);
        }
        let last = tries[tries.len() - 1];
        assert((first + tries).drop_last() =~= first + shorter);
        assert((first + tries).last() == last);
        law_rounds_try_every_nonce(steps, begin, shorter, i);
        let almost = WorkerView::run(first + shorter);
        let after = WorkerView::run(first + tries);
        let n = almost.round->0.nonce;
        if n < 100_000 {
            let header = header_of(head, n);
            assert(after.hashed == almost.hashed.push(header));
            assert(after.hashed.take(before.hashed.len() as int) =~= before.hashed) by {
                assert(almost.hashed.take(before.hashed.len() as int) =~= before.hashed);
                assert(after.hashed.take(before.hashed.len() as int) =~= almost.hashed.take(
                    before.hashed.len() as int,
                ));
            }
            lemma_header_parts(head, n as u32);
        }
    }
}

/// A header of a head and a nonce begins with the head, and the four bytes behind
/// it stand for the nonce.
proof fn lemma_header_parts(head: Seq<u8>, nonce: u32)
    ensures
        ({
            let header = header_of(head, nonce as nat);
            let n = head.len() as int;
            &&& header.len() == n + 4
            &&& header.take(n) == head
            &&& le_value(header.skip(n)) == nonce
        }),
{
    let header = header_of(head, nonce as nat);
    let n = head.len() as int;
    lemma_be_encoding_len(nonce as nat, 4);
    law_encoding_reads_back(nonce as nat, 4);
    assert(header.take(n) =~= head);
    assert(header.skip(n) =~= le_encoding(nonce as nat, 4));
    assert(pow(256, 4) == 0x1_0000_0000) by {
        reveal_with_fuel(pow, 5);
    }
}

/// The line of a submitted share is the submission of its job, extra nonce, time
/// and nonce.
pub proof fn law_submitted_lines(share: SubmittedShare, wallet: Seq<char>)
    ensures
        share.line(wallet) == submission_of(
            wallet,
            share.job_id,
            share.extranonce2,
            share.ntime,
            share.nonce,
        ),
{
}

/// Where the pool has no job, beginning a round changes nothing and asks to wait
/// for a fifth of a second, and then to begin again. Where it has one, the next
/// nonce is to be tried, in a round for that job with the pool's first extra nonce,
/// its size of the second and the target of the difficulty.
pub proof fn law_workers_wait_for_a_job(
    worker: &mut Worker,
    pool: &PoolState,
    scaled_difficulty: u64,
    wait_millis: Option<u64>,
)
    requires
        call_ensures(Worker::begin, (worker, pool, scaled_difficulty), wait_millis),
    ensures
        pool.job is None ==> {
            &&& wait_millis matches Some(millis) && 5 * millis == 1000
            &&& final(worker)@ == old(worker)@
            &&& final(worker).next_phase() == WorkerPhase::Beginning
        },
        pool.job matches Some(job) ==> {
            &&& wait_millis is None
            &&& final(worker)@ == old(worker)@.after(
                WorkerStep::Begin {
                    job: job@,
                    extranonce1: pool.extranonce1@,
                    size: pool.extranonce2_size as nat,
                    target: target_value(scaled_difficulty as nat),
                },
            )
            &&& final(worker).next_phase() == WorkerPhase::Trying
        },
{
}

/// A worker that tries a nonce while the pool works on another job than its
/// round's, or on none, or after the last nonce, does nothing and is to begin
/// another round.
pub proof fn law_workers_drop_stale_rounds(
    worker: &mut Worker,
    current_job: Option<&str>,
    wallet: &str,
    share: Option<Share>,
    round: RoundView,
)
    requires
        call_ensures(Worker::try_nonce, (worker, current_job, wallet), share),
        old(worker)@.round == Some(round),
        current_job is None || current_job->0@ != round.job_id || round.nonce >= 100_000,
    ensures
        share is None,
        final(worker)@ == old(worker)@,
        final(worker).next_phase() == WorkerPhase::Beginning,
{
}

/// A worker that tries a nonce while the pool works on its round's job does what
/// such a step does, and is then to report. What it submits is the line of the
/// share that the step adds, where it adds one.
pub proof fn law_workers_mine_the_current_job(
    worker: &mut Worker,
    current_job: Option<&str>,
    wallet: &str,
    share: Option<Share>,
    round: RoundView,
)
    requires
        call_ensures(Worker::try_nonce, (worker, current_job, wallet), share),
        old(worker)@.round == Some(round),
        current_job is Some,
        current_job->0@ == round.job_id,
        round.nonce < 100_000,
    ensures
        ({
            let before = old(worker)@;
            let after = final(worker)@;
            &&& after == before.after(
                WorkerStep::Try { current: Some(round.job_id), elapsed_nanos: 0 },
            )
            &&& share is Some <==> after.shares.len() == before.shares.len() + 1
            &&& share matches Some(s) ==> s.submission@ == after.shares.last().line(wallet@)
            &&& final(worker).next_phase() == WorkerPhase::Reporting
        }),
{
}

/// A worker reports after a hash exactly where more than half a second has passed
/// since the last report, and is then to try the next nonce.
pub proof fn law_workers_report(
    worker: &mut Worker,
    elapsed_nanos: u128,
    report: Option<HashReport>,
)
    requires
        call_ensures(Worker::report, (worker, elapsed_nanos), report),
        old(worker)@.reported <= old(worker)@.hashes,
    ensures
        report is Some <==> elapsed_nanos > 500_000_000,
        report matches Some(r) ==> {
            &&& r.hashes == old(worker)@.hashes
            &&& r.hashrate == 2 * old(worker)@.hashes - 2 * old(worker)@.reported
            &&& final(worker)@.reported == old(worker)@.hashes
        },
        report is None ==> final(worker)@ == old(worker)@,
        final(worker)@.hashed == old(worker)@.hashed,
        final(worker)@.shares == old(worker)@.shares,
        final(worker)@.round == old(worker)@.round,
        final(worker).next_phase() == WorkerPhase::Trying,
{
}

} // verus!
