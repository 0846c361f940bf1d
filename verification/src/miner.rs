//! The mining worker: rounds of nonces over one header, shares and reports.

use crate::bytes::{
    be_bytes, be_encoding, be_value, law_encoding_reads_back, law_values_tell_the_bytes, le_bytes,
    le_encoding, le_value, lemma_be_encoding_len,
};
use crate::hashing::{double_sha256, sha256_digest, sha256d};
use crate::hexcode::{decoded, encode_hex, hex_text, is_hex_digit, law_decode_undoes_encode};
use crate::job::{
    coinbase, coinbase_of, header, header_head, header_head_of, header_of, merkle_root,
    merkle_root_of, stands_at, words_swapped, Job, JobView,
};
use crate::target::{
    big_value, difficulty_to_target, lemma_target_is_the_quotient, meets, meets_target,
    target_value,
};
use crate::text::same_text;
use num_bigint::BigUint;
use vstd::arithmetic::div_mod::{lemma_mod_mod, lemma_small_mod, lemma_sub_mod_noop};
use vstd::arithmetic::power::*;
use vstd::arithmetic::power2::pow2;
use vstd::prelude::*;

verus! {

/// The name under which this worker mines for its wallet.
pub const WORKER_NAME: &'static str = "rustminer1";

/// How many nonces a round tries before the extra nonce changes.
pub const NONCES_PER_ROUND: u32 = 100_000;

/// Hash counts are reported when more than this many nanoseconds have passed.
pub const REPORT_INTERVAL_NANOS: u128 = 500_000_000;

/// The worker's counters.
#[derive(Clone, Copy, Debug)]
pub struct Miner {
    /// How many hashes were computed.
    pub hashes: u64,
    /// How many of them the last report covered.
    pub reported: u64,
    /// The extra nonce of the current round.
    pub extranonce2: u64,
}

/// One header head with the nonces still to be tried.
pub struct Round {
    job_id: String,
    ntime: Vec<u8>,
    extranonce2: Vec<u8>,
    head: Vec<u8>,
    target: BigUint,
    nonce: u32,
}

/// What a [`Round`] holds.
#[verifier::ext_equal]
pub struct RoundView {
    pub job_id: Seq<char>,
    pub ntime: Seq<u8>,
    pub extranonce2: Seq<u8>,
    pub head: Seq<u8>,
    pub target: nat,
    /// The next nonce.
    pub nonce: nat,
}

impl View for Round {
    type V = RoundView;

    closed spec fn view(&self) -> RoundView {
        RoundView {
            job_id: self.job_id@,
            ntime: self.ntime@,
            extranonce2: self.extranonce2@,
            head: self.head@,
            target: big_value(self.target),
            nonce: self.nonce as nat,
        }
    }
}

/// A share that was found: what to send to the pool and what to log.
#[derive(Debug)]
pub struct Share {
    pub submission: String,
    pub log: String,
}

/// A report of the hash count and of the hashes per second.
#[derive(Clone, Copy, Debug, PartialEq, Eq, Structural)]
pub struct HashReport {
    pub hashes: u64,
    pub hashrate: u64,
}

/// What came of asking a round for its next nonce.
#[derive(Debug)]
pub enum Attempt {
    /// The round has no nonce left, or the pool has moved on to another job.
    Over,
    /// A nonce was hashed.
    Hashed(Option<Share>),
}

/// How many bytes of the extra nonce the pool gets.
pub open spec fn extranonce2_len(size: nat) -> nat {
    if size <= 8 {
        size
    } else {
        8
    }
}

/// The extra nonce that follows another; after the largest comes zero.
pub open spec fn next_extranonce(extranonce2: nat) -> nat {
    (extranonce2 + 1) % 0x1_0000_0000_0000_0000
}

/// Whether a report is due so many nanoseconds after the last.
pub open spec fn report_is_due(elapsed_nanos: nat) -> bool {
    elapsed_nanos > 500_000_000
}

/// The hashes per second that a report gives: twice what was hashed since the
/// last, half a second before.
pub open spec fn hashrate_of(hashes: int, reported: int) -> int {
    (hashes - reported) * 2
}

/// The round that starts for a job.
pub open spec fn round_of(
    job: JobView,
    extranonce1: Seq<u8>,
    extranonce2: Seq<u8>,
    target: nat,
) -> RoundView {
    RoundView {
        job_id: job.job_id,
        ntime: job.ntime,
        extranonce2: extranonce2,
        head: header_head_of(
            job,
            merkle_root_of(
                double_sha256(coinbase_of(job, extranonce1, extranonce2)),
                job.merkle_branch,
            ),
        ),
        target: target,
        nonce: 0,
    }
}

/// The name of the pool's current job, where it has one.
pub open spec fn id_of(current_job: Option<&str>) -> Option<Seq<char>> {
    match current_job {
        Some(id) => Some(id@),
        None => None,
    }
}

/// The line that submits a share.
pub open spec fn submission_of(
    wallet: Seq<char>,
    job_id: Seq<char>,
    extranonce2: Seq<u8>,
    ntime: Seq<u8>,
    nonce: nat,
) -> Seq<char> {
    "{\"id\":100,\"method\":\"mining.submit\",\"params\":[\""@ + wallet + "."@ + WORKER_NAME@
        + "\",\""@ + job_id + "\",\""@ + hex_text(extranonce2) + "\",\""@ + hex_text(ntime)
        + "\",\""@ + hex_text(le_encoding(nonce, 4)) + "\"]}"@
}

/// What is logged when a share is submitted.
pub open spec fn share_log_of(job_id: Seq<char>) -> Seq<char> {
    "share submitted (job "@ + job_id + ")"@
}

impl RoundView {
    /// Whether the next nonce may be tried while the pool works on `current`.
    pub open spec fn is_live(self, current: Option<Seq<char>>) -> bool {
        self.nonce < 100_000 && current == Some(self.job_id)
    }

    /// Whether the next nonce gives a share.
    pub open spec fn finds_share(self) -> bool {
        meets(double_sha256(header_of(self.head, self.nonce)), self.target)
    }

    /// Whether a share is the one that the next nonce gives for a wallet.
    pub open spec fn describes(self, share: Share, wallet: Seq<char>) -> bool {
        &&& share.submission@ == submission_of(
            wallet,
            self.job_id,
            self.extranonce2,
            self.ntime,
            self.nonce,
        )
        &&& share.log@ == share_log_of(self.job_id)
    }

    /// The round with the next nonce used up.
    pub open spec fn advanced(self) -> RoundView {
        RoundView { nonce: self.nonce + 1, ..self }
    }
}

/// The line that submits a share found with `nonce`.
pub fn submission(
    wallet: &str,
    job_id: &str,
    extranonce2: &[u8],
    ntime: &[u8],
    nonce: u32,
) -> (line: String)
    ensures
        line@ == submission_of(wallet@, job_id@, extranonce2@, ntime@, nonce as nat),
{
    let mut line: String = "{\"id\":100,\"method\":\"mining.submit\",\"params\":[\"".to_owned();
    line.append(wallet);
    line.append(".");
    line.append(WORKER_NAME);
    line.append("\",\"");
    line.append(job_id);
    line.append("\",\"");
    line.append(encode_hex(extranonce2).as_str());
    line.append("\",\"");
    line.append(encode_hex(ntime).as_str());
    line.append("\",\"");
    line.append(encode_hex(le_bytes(nonce).as_slice()).as_str());
    line.append("\"]}");
    line
}

impl Round {
    /// Whether the next nonce may be tried while the pool works on
    /// `current_job`.
    pub fn is_live(&self, current_job: Option<&str>) -> (live: bool)
        ensures
            live == self@.is_live(id_of(current_job)),
    {
        match current_job {
            Some(id) => self.nonce < NONCES_PER_ROUND && same_text(id, self.job_id.as_str()),
            None => false,
        }
    }

    /// The share that the next nonce gives where the header's hash is `hash`, or
    /// `None` where that hash does not meet the target.
    pub fn share_with(&self, hash: &[u8], wallet: &str) -> (share: Option<Share>)
        ensures
            share is Some <==> meets(hash@, self@.target),
            share matches Some(s) ==> self@.describes(s, wallet@),
    {
        if !meets_target(hash, &self.target) {
            return None;
        }
        let line: String = submission(
            wallet,
            self.job_id.as_str(),
            self.extranonce2.as_slice(),
            self.ntime.as_slice(),
            self.nonce,
        );
        let mut log: String = "share submitted (job ".to_owned();
        log.append(self.job_id.as_str());
        log.append(")");
        Some(Share { submission: line, log })
    }
}

impl Miner {
    /// A worker that has hashed nothing yet.
    pub fn new() -> (miner: Miner)
        ensures
            miner.hashes == 0,
            miner.reported == 0,
            miner.extranonce2 == 1,
            miner.wf(),
    {
        Miner { hashes: 0, reported: 0, extranonce2: 1 }
    }

    /// No more hashes were reported than computed.
    pub open spec fn wf(self) -> bool {
        self.reported <= self.hashes
    }

    /// Moves on to the next extra nonce and prepares the header of `job` with
    /// it. The difficulty is given in millionths.
    pub fn begin_round(
        &mut self,
        job: &Job,
        extranonce1: &[u8],
        extranonce2_size: usize,
        scaled_difficulty: u64,
    ) -> (round: Round)
        requires
            old(self).wf(),
        ensures
            final(self).wf(),
            final(self).hashes == old(self).hashes,
            final(self).reported == old(self).reported,
            final(self).extranonce2 == next_extranonce(old(self).extranonce2 as nat),
            round@ == round_of(
                job@,
                extranonce1@,
                be_encoding(
                    final(self).extranonce2 as nat,
                    extranonce2_len(extranonce2_size as nat),
                ),
                target_value(scaled_difficulty as nat),
            ),
    {
        self.extranonce2 = self.extranonce2.wrapping_add(1);
        let len: usize = if extranonce2_size <= 8 {
            extranonce2_size
        } else {
            8
        };
        let extranonce2: Vec<u8> = be_bytes(self.extranonce2, len);
        let transaction: Vec<u8> = coinbase(job, extranonce1, extranonce2.as_slice());
        let root: Vec<u8> = merkle_root(transaction.as_slice(), &job.merkle_branch);
        let head: Vec<u8> = header_head(job, root.as_slice());
        let mut ntime: Vec<u8> = Vec::new();
        ntime.extend_from_slice(job.ntime.as_slice());
        assert(ntime@ =~= job.ntime@);
        Round {
            job_id: job.job_id.clone(),
            ntime,
            extranonce2,
            head,
            target: difficulty_to_target(scaled_difficulty),
            nonce: 0,
        }
    }

    /// Hashes the header with the round's next nonce, unless the round is over
    /// or the pool now works on another job. A hash that meets the target gives
    /// a share.
    pub fn try_nonce(
        &mut self,
        round: &mut Round,
        current_job: Option<&str>,
        wallet: &str,
    ) -> (attempt: Attempt)
        requires
            old(self).wf(),
            old(round)@.is_live(id_of(current_job)) ==> old(self).hashes < u64::MAX,
        ensures
            final(self).wf(),
            final(self).reported == old(self).reported,
            final(self).extranonce2 == old(self).extranonce2,
            id_of(current_job) != Some(old(round)@.job_id) ==> attempt is Over,
            old(round)@.nonce >= 100_000 ==> attempt is Over,
            ({
                let before = old(round)@;
                if before.is_live(id_of(current_job)) {
                    &&& final(self).hashes == old(self).hashes + 1
                    &&& final(round)@ == before.advanced()
                    &&& attempt matches Attempt::Hashed(share)
                    &&& share is Some <==> before.finds_share()
                    &&& share matches Some(s) ==> before.describes(s, wallet@)
                } else {
                    &&& attempt is Over
                    &&& final(self).hashes == old(self).hashes
                    &&& final(round)@ == before
                }
            }),
    {
        if !round.is_live(current_job) {
            return Attempt::Over;
        }
        let bytes: Vec<u8> = header(round.head.as_slice(), round.nonce);
        let hash: Vec<u8> = sha256d(bytes.as_slice());
        let share: Option<Share> = round.share_with(hash.as_slice(), wallet);
        self.hashes = self.hashes + 1;
        round.nonce = round.nonce + 1;
        Attempt::Hashed(share)
    }

    /// Reports the hash count where more than half a second has passed since
    /// the last report. The rate is twice the hashes since then.
    pub fn report(&mut self, elapsed_nanos: u128) -> (report: Option<HashReport>)
        requires
            old(self).wf(),
            report_is_due(elapsed_nanos as nat) ==> hashrate_of(
                old(self).hashes as int,
                old(self).reported as int,
            ) <= u64::MAX,
        ensures
            final(self).wf(),
            final(self).hashes == old(self).hashes,
            final(self).extranonce2 == old(self).extranonce2,
            if report_is_due(elapsed_nanos as nat) {
                &&& final(self).reported == old(self).hashes
                &&& report matches Some(r)
                &&& r.hashes == old(self).hashes
                &&& r.hashrate == hashrate_of(old(self).hashes as int, old(self).reported as int)
            } else {
                &&& final(self).reported == old(self).reported
                &&& report is None
            },
    {
        if elapsed_nanos > REPORT_INTERVAL_NANOS {
            let hashrate: u64 = (self.hashes - self.reported) * 2;
            self.reported = self.hashes;
            Some(HashReport { hashes: self.hashes, hashrate })
        } else {
            None
        }
    }
}

/// Calls `num_cpus::get`, which counts the processors that this process may use.
/// The count depends on the machine, so nothing is claimed of it.
#[verifier::external_body]
fn cpu_count() -> usize {
    num_cpus::get()
}

/// How many workers are shown for a number of processors: one fewer, and at
/// least one.
pub fn workers_for(cpus: usize) -> (workers: usize)
    ensures
        workers == (if cpus <= 2 {
            1
        } else {
            cpus - 1
        }),
{
    if cpus <= 2 {
        1
    } else {
        cpus - 1
    }
}

/// How many workers are shown on this machine.
pub fn worker_count() -> (workers: usize)
    ensures
        1 <= workers < usize::MAX,
{
    workers_for(cpu_count())
}

/// How many nonces a round hashes when it is asked once for each of `currents`,
/// the pool's job at that time.
pub open spec fn hashed_count(round: RoundView, currents: Seq<Option<Seq<char>>>) -> nat
    decreases currents.len(),
{
    if currents.len() == 0 {
        0
    } else if round.is_live(currents[0]) {
        1 + hashed_count(round.advanced(), currents.drop_first())
    } else {
        hashed_count(round, currents.drop_first())
    }
}

/// However often it is asked, a round that has just begun hashes at most 100 000
/// nonces.
pub proof fn law_round_is_bounded(
    job: JobView,
    extranonce1: Seq<u8>,
    extranonce2: Seq<u8>,
    target: nat,
    currents: Seq<Option<Seq<char>>>,
)
    ensures
        hashed_count(round_of(job, extranonce1, extranonce2, target), currents) <= 100_000,
{
    lemma_hashed_count_bound(round_of(job, extranonce1, extranonce2, target), currents);
}

proof fn lemma_hashed_count_bound(round: RoundView, currents: Seq<Option<Seq<char>>>)
    requires
        round.nonce <= 100_000,
    ensures
        hashed_count(round, currents) + round.nonce <= 100_000,
    decreases currents.len(),
{
    if currents.len() > 0 {
        if round.is_live(currents[0]) {
            lemma_hashed_count_bound(round.advanced(), currents.drop_first());
        } else {
            lemma_hashed_count_bound(round, currents.drop_first());
        }
    }
}

/// The extra nonce of the round that is begun after `rounds` others, where the
/// worker starts with `start`: each round moves on by one.
pub open spec fn extranonce_of_round(start: nat, rounds: nat) -> nat {
    (start + rounds) % 0x1_0000_0000_0000_0000
}

/// Moving on from the extra nonce of one round gives that of the next.
pub proof fn law_extranonce_moves_on(start: nat, rounds: nat)
    ensures
        next_extranonce(extranonce_of_round(start, rounds)) == extranonce_of_round(
            start,
            rounds + 1,
        ),
{
}

/// No two rounds use the same extra nonce, as long as fewer rounds lie between
/// them than there are values in the bytes that the pool gives it.
pub proof fn law_extranonces_differ(start: nat, size: nat, earlier: nat, later: nat)
    requires
        earlier < later,
        later - earlier < pow(256, extranonce2_len(size)),
    ensures
        be_encoding(extranonce_of_round(start, earlier), extranonce2_len(size)) != be_encoding(
            extranonce_of_round(start, later),
            extranonce2_len(size),
        ),
{
    let len = extranonce2_len(size);
    let values = pow(256, len);
    let a = extranonce_of_round(start, earlier);
    let b = extranonce_of_round(start, later);
    if be_encoding(a, len) == be_encoding(b, len) {
        law_encoding_reads_back(a, len);
        law_encoding_reads_back(b, len);
        lemma_pow_positive(256, len);
        let rest = pow(256, (8 - len) as nat);
        lemma_pow_positive(256, (8 - len) as nat);
        lemma_pow_adds(256, len, (8 - len) as nat);
        assert(pow(256, 8) == 0x1_0000_0000_0000_0000) by {
            reveal_with_fuel(pow, 9);
        }
        let x = (start + earlier) as int;
        let y = (start + later) as int;
        lemma_mod_mod(x, values, rest);
        lemma_mod_mod(y, values, rest);
        lemma_sub_mod_noop(y, x, values);
        lemma_small_mod((y - x) as nat, values as nat);
        lemma_small_mod(0, values as nat);
    }
}

/// What a submission says is enough to rebuild the header that was hashed: the
/// nonce text decodes to the header's last four bytes, which stand for the
/// nonce, and the extra nonce and time texts decode to those of the round.
pub proof fn law_submission_rebuilds_the_header(
    job: JobView,
    extranonce1: Seq<u8>,
    extranonce2: Seq<u8>,
    target: nat,
    nonce: u32,
)
    ensures
        ({
            let round = round_of(job, extranonce1, extranonce2, target);
            &&& decoded(hex_text(round.extranonce2)) == Some(extranonce2)
            &&& decoded(hex_text(round.ntime)) == Some(job.ntime)
            &&& decoded(hex_text(le_encoding(nonce as nat, 4))) matches Some(bytes)
            &&& header_of(round.head, nonce as nat) == round.head + bytes
            &&& le_value(bytes) == nonce
        }),
{
    law_decode_undoes_encode(extranonce2);
    law_decode_undoes_encode(job.ntime);
    law_decode_undoes_encode(le_encoding(nonce as nat, 4));
    law_encoding_reads_back(nonce as nat, 4);
    assert(pow(256, 4) == 0x1_0000_0000) by {
        reveal_with_fuel(pow, 5);
    }
}

/// A submission tells the extra nonce, the time and the nonce of its share, for
/// whichever wallet and job it is.
pub proof fn law_submission_tells_the_share(
    wallets: (Seq<char>, Seq<char>),
    job_ids: (Seq<char>, Seq<char>),
    extranonces: (Seq<u8>, Seq<u8>),
    ntimes: (Seq<u8>, Seq<u8>),
    nonces: (u32, u32),
)
    requires
        submission_of(wallets.0, job_ids.0, extranonces.0, ntimes.0, nonces.0 as nat)
            == submission_of(wallets.1, job_ids.1, extranonces.1, ntimes.1, nonces.1 as nat),
    ensures
        extranonces.0 == extranonces.1,
        ntimes.0 == ntimes.1,
        nonces.0 == nonces.1,
{
    reveal_strlit("\",\"");
    reveal_strlit("\"]}");
    let (job_0, en_0, time_0, line_0) = submission_parts(
        wallets.0,
        job_ids.0,
        extranonces.0,
        ntimes.0,
        nonces.0 as nat,
    );
    let (job_1, en_1, time_1, line_1) = submission_parts(
        wallets.1,
        job_ids.1,
        extranonces.1,
        ntimes.1,
        nonces.1 as nat,
    );
    let bytes_0 = le_encoding(nonces.0 as nat, 4);
    let bytes_1 = le_encoding(nonces.1 as nat, 4);
    let end = "\"]}"@;
    assert((line_0 + end).take((line_0 + end).len() - 3) =~= line_0);
    assert((line_1 + end).take((line_1 + end).len() - 3) =~= line_1);
    lemma_last_field(time_0, bytes_0, time_1, bytes_1);
    lemma_last_field(en_0, ntimes.0, en_1, ntimes.1);
    lemma_last_field(job_0, extranonces.0, job_1, extranonces.1);
    law_encoding_reads_back(nonces.0 as nat, 4);
    law_encoding_reads_back(nonces.1 as nat, 4);
    assert(pow(256, 4) == 0x1_0000_0000) by {
        reveal_with_fuel(pow, 5);
    }
}

/// A submission up to its job, its extra nonce, its time and its nonce.
spec fn submission_parts(
    wallet: Seq<char>,
    job_id: Seq<char>,
    extranonce2: Seq<u8>,
    ntime: Seq<u8>,
    nonce: nat,
) -> (Seq<char>, Seq<char>, Seq<char>, Seq<char>) {
    let job = "{\"id\":100,\"method\":\"mining.submit\",\"params\":[\""@ + wallet + "."@
        + WORKER_NAME@ + "\",\""@ + job_id;
    let extra = job + "\",\""@ + hex_text(extranonce2);
    let time = extra + "\",\""@ + hex_text(ntime);
    (job, extra, time, time + "\",\""@ + hex_text(le_encoding(nonce, 4)))
}

/// Where two texts are equal that end in a separator and hexadecimal digits, so
/// are what stands before the separator and what the digits stand for.
proof fn lemma_last_field(a: Seq<char>, bytes_a: Seq<u8>, b: Seq<char>, bytes_b: Seq<u8>)
    requires
        a + "\",\""@ + hex_text(bytes_a) == b + "\",\""@ + hex_text(bytes_b),
    ensures
        a == b,
        bytes_a == bytes_b,
{
    reveal_strlit("\",\"");
    let text = a + "\",\""@ + hex_text(bytes_a);
    let m = a.len() as int;
    let n = b.len() as int;
    let digits_a = hex_text(bytes_a);
    let digits_b = hex_text(bytes_b);
    assert(text.len() == m + 3 + digits_a.len());
    assert(text.len() == n + 3 + digits_b.len());
    assert(text.skip(m + 3) =~= digits_a);
    assert(text.skip(n + 3) =~= digits_b);
    law_decode_undoes_encode(bytes_a);
    law_decode_undoes_encode(bytes_b);
    assert(text[m + 2] == '"');
    assert(text[n + 2] == '"');
    if m < n {
        assert(text.skip(m + 3)[n - m - 1] == text[n + 2]);
        assert(is_hex_digit(digits_a[n - m - 1]));
    }
    if n < m {
        assert(text.skip(n + 3)[m - n - 1] == text[m + 2]);
        assert(is_hex_digit(digits_b[m - n - 1]));
    }
    assert(text.take(m) =~= a);
    assert(text.take(n) =~= b);
}

/// A round goes on exactly while the pool works on the round's own job and fewer
/// than 100 000 of its nonces were tried. Whatever nonce it has reached, another
/// job, or none, ends it.
pub proof fn law_other_jobs_end_the_round(round: RoundView, current: Option<Seq<char>>)
    ensures
        current != Some(round.job_id) ==> !round.is_live(current),
        round.nonce >= 100_000 ==> !round.is_live(current),
        current == Some(round.job_id) && round.nonce < 100_000 ==> round.is_live(current),
{
}

/// What a round says of itself: it may go on exactly while the pool works on a job
/// whose name is the round's, character for character, and nonces are left.
pub proof fn law_rounds_know_when_they_are_over(
    round: &Round,
    current_job: Option<&str>,
    live: bool,
)
    requires
        call_ensures(Round::is_live, (round, current_job), live),
    ensures
        current_job is None ==> !live,
        current_job matches Some(id) ==> (live <==> id@ == round@.job_id && round@.nonce < 100_000),
{
}

/// Each nonce is followed by the next, and nothing else of the round changes.
pub proof fn law_nonces_follow_each_other(round: RoundView)
    ensures
        round.advanced().nonce == round.nonce + 1,
        round.advanced().job_id == round.job_id,
        round.advanced().ntime == round.ntime,
        round.advanced().extranonce2 == round.extranonce2,
        round.advanced().head == round.head,
        round.advanced().target == round.target,
{
}

/// A nonce gives a share exactly where the header with it, whose last four bytes
/// stand for the nonce with the least significant first, hashed twice and read
/// with the least significant byte first, is not above the round's target.
pub proof fn law_shares_meet_the_target(round: RoundView, nonce_bytes: Seq<u8>)
    requires
        nonce_bytes.len() == 4,
        le_value(nonce_bytes) == round.nonce,
    ensures
        round.finds_share() <==> le_value(
            sha256_digest(sha256_digest(round.head + nonce_bytes)),
        ) <= round.target,
{
    lemma_nonce_bytes(round.nonce, nonce_bytes);
}

/// A share comes exactly of a hash that is not above the target, and it is logged
/// with the name of its job.
pub proof fn law_hashes_give_shares(
    round: &Round,
    hash: &[u8],
    wallet: &str,
    share: Option<Share>,
)
    requires
        call_ensures(Round::share_with, (round, hash, wallet), share),
    ensures
        share is Some <==> le_value(hash@) <= round@.target,
        share matches Some(s) ==> {
            let start = "share submitted (job "@;
            let n = start.len() as int;
            &&& s.log@.len() == n + round@.job_id.len() + 1
            &&& s.log@.take(n) == start
            &&& s.log@.subrange(n, s.log@.len() - 1) == round@.job_id
            &&& s.log@.last() == ')'
        },
{
    if let Some(s) = share {
        reveal_strlit(")");
        let start = "share submitted (job "@;
        assert(s.log@.take(start.len() as int) =~= start);
        assert(s.log@.subrange(start.len() as int, s.log@.len() - 1) =~= round@.job_id);
    }
}

/// A round begins with its first nonce, for the name, the time and the target that
/// it was begun with. The head that it hashes is the version, the previous hash
/// with its words turned round, the Merkle root, the time and the bits, and the
/// leaf below the root is the double hash of the two halves of the coinbase with
/// the two extra nonces between them.
pub proof fn law_rounds_begin(
    job: JobView,
    extranonce1: Seq<u8>,
    extranonce2: Seq<u8>,
    target: nat,
)
    ensures
        ({
            let round = round_of(job, extranonce1, extranonce2, target);
            let leaf = sha256_digest(
                sha256_digest(job.coinb1 + extranonce1 + extranonce2 + job.coinb2),
            );
            let root = merkle_root_of(leaf, job.merkle_branch);
            let a = job.version.len() as int;
            let b = job.prevhash.len() as int;
            let c = root.len() as int;
            let d = job.ntime.len() as int;
            &&& round.job_id == job.job_id
            &&& round.ntime == job.ntime
            &&& round.extranonce2 == extranonce2
            &&& round.target == target
            &&& round.nonce == 0
            &&& round.head.len() == a + b + c + d + job.nbits.len()
            &&& stands_at(job.version, round.head, 0)
            &&& stands_at(words_swapped(job.prevhash), round.head, a)
            &&& stands_at(root, round.head, a + b)
            &&& stands_at(job.ntime, round.head, a + b + c)
            &&& stands_at(job.nbits, round.head, a + b + c + d)
        }),
{
}

/// Each extra nonce is one more than the last, and after the largest of eight
/// bytes comes zero. A round gets as many of its bytes as the pool asks for, the
/// lowest ones, and all eight where it asks for more.
pub proof fn law_rounds_get_the_next_extranonce(extranonce2: u64, size: nat)
    ensures
        ({
            let next = next_extranonce(extranonce2 as nat);
            let bytes = be_encoding(next, extranonce2_len(size));
            &&& extranonce2 < u64::MAX ==> next == extranonce2 + 1
            &&& extranonce2 == u64::MAX ==> next == 0
            &&& size <= 8 ==> bytes.len() == size
            &&& size > 8 ==> bytes.len() == 8
            &&& be_value(bytes) == next as int % pow(256, bytes.len())
        }),
{
    let next = next_extranonce(extranonce2 as nat);
    lemma_be_encoding_len(next, extranonce2_len(size));
    law_encoding_reads_back(next, extranonce2_len(size));
}

/// A report comes exactly where more than half a second has passed, and its rate
/// is as many hashes per second as twice what was hashed since the last.
pub proof fn law_reports_come_every_half_second(elapsed_nanos: nat, hashes: int, reported: int)
    ensures
        2 * elapsed_nanos > 1_000_000_000 <==> report_is_due(elapsed_nanos),
        hashrate_of(hashes, reported) == 2 * hashes - 2 * reported,
{
}

/// A submission holds, between fixed texts, the wallet, the name of the job, the
/// digits of the extra nonce, those of the time and those of the nonce, in that
/// order and as they are. The digits of the nonce stand for its four bytes, the
/// least significant first.
pub proof fn law_submission_layout(
    wallet: &str,
    job_id: &str,
    extranonce2: &[u8],
    ntime: &[u8],
    nonce: u32,
    line: String,
    nonce_bytes: Seq<u8>,
)
    requires
        call_ensures(submission, (wallet, job_id, extranonce2, ntime, nonce), line),
        nonce_bytes.len() == 4,
        le_value(nonce_bytes) == nonce,
    ensures
        ({
            let start = "{\"id\":100,\"method\":\"mining.submit\",\"params\":[\""@;
            let name = ".rustminer1\",\""@;
            let a = start.len() as int;
            let b = a + wallet@.len();
            let c = b + name.len();
            let d = c + job_id@.len();
            let e = d + 3 + 2 * extranonce2@.len();
            let f = e + 3 + 2 * ntime@.len();
            &&& line@.len() == f + 3 + 8 + 3
            &&& line@.take(a) == start
            &&& line@.subrange(a, b) == wallet@
            &&& line@.subrange(b, c) == name
            &&& line@.subrange(c, d) == job_id@
            &&& line@.subrange(d, d + 3) == "\",\""@
            &&& line@.subrange(d + 3, e) == hex_text(extranonce2@)
            &&& line@.subrange(e, e + 3) == "\",\""@
            &&& line@.subrange(e + 3, f) == hex_text(ntime@)
            &&& line@.subrange(f, f + 3) == "\",\""@
            &&& line@.subrange(f + 3, f + 11) == hex_text(nonce_bytes)
            &&& line@.skip(f + 11) == "\"]}"@
        }),
{
    reveal_strlit(".");
    reveal_strlit("rustminer1");
    reveal_strlit("\",\"");
    reveal_strlit("\"]}");
    reveal_strlit(".rustminer1\",\"");
    lemma_nonce_bytes(nonce as nat, nonce_bytes);
    let start = "{\"id\":100,\"method\":\"mining.submit\",\"params\":[\""@;
    let name = ".rustminer1\",\""@;
    assert("."@ + "rustminer1"@ + "\",\""@ =~= name);
    let a = start.len() as int;
    let b = a + wallet@.len();
    let c = b + name.len();
    let d = c + job_id@.len();
    let e = d + 3 + 2 * extranonce2@.len();
    let f = e + 3 + 2 * ntime@.len();
    let text = start + wallet@ + name + job_id@ + "\",\""@ + hex_text(extranonce2@) + "\",\""@
        + hex_text(ntime@) + "\",\""@ + hex_text(nonce_bytes) + "\"]}"@;
    assert(line@ =~= text);
    assert(line@.take(a) =~= start);
    assert(line@.subrange(a, b) =~= wallet@);
    assert(line@.subrange(b, c) =~= name);
    assert(line@.subrange(c, d) =~= job_id@);
    assert(line@.subrange(d, d + 3) =~= "\",\""@);
    assert(line@.subrange(d + 3, e) =~= hex_text(extranonce2@));
    assert(line@.subrange(e, e + 3) =~= "\",\""@);
    assert(line@.subrange(e + 3, f) =~= hex_text(ntime@));
    assert(line@.subrange(f, f + 3) =~= "\",\""@);
    assert(line@.subrange(f + 3, f + 11) =~= hex_text(nonce_bytes));
    assert(line@.skip(f + 11) =~= "\"]}"@);
}

/// One processor is left free, wherever there is more than one.
pub proof fn law_one_processor_is_left_free(cpus: usize, workers: usize)
    requires
        call_ensures(workers_for, (cpus,), workers),
    ensures
        workers >= 1,
        cpus >= 2 ==> workers + 1 == cpus,
        cpus < 2 ==> workers == 1,
{
}

/// Four bytes that stand for a nonce with the least significant first are those
/// that a header ends in.
pub proof fn lemma_nonce_bytes(nonce: nat, bytes: Seq<u8>)
    requires
        bytes.len() == 4,
        le_value(bytes) == nonce,
    ensures
        le_encoding(nonce, 4) == bytes,
{
    lemma_be_encoding_len(nonce, 4);
    law_encoding_reads_back(nonce, 4);
    lemma_low_value_bound(bytes);
    lemma_small_mod(nonce, pow(256, 4) as nat);
    law_values_tell_the_bytes(le_encoding(nonce, 4), bytes);
}

proof fn lemma_low_value_bound(bytes: Seq<u8>)
    requires
        bytes.len() == 4,
    ensures
        le_value(bytes) < pow(256, 4),
{
    assert(pow(256, 4) == 0x1_0000_0000) by {
        reveal_with_fuel(pow, 5);
    }
    reveal_with_fuel(be_value, 5);
    assert(bytes.reverse().drop_last().drop_last().drop_last().drop_last().len() == 0);
}

/// Where the pool has moved on to another job, or to none, or where the nonces of
/// the round are used up, trying a nonce ends the round: nothing is hashed, nothing
/// is counted and no share is given, whatever nonce the round has reached.
pub proof fn law_trying_for_another_job_ends_the_round(
    miner: &mut Miner,
    round: &mut Round,
    current_job: Option<&str>,
    wallet: &str,
    attempt: Attempt,
)
    requires
        call_ensures(Miner::try_nonce, (miner, round, current_job, wallet), attempt),
        current_job is None || current_job->0@ != old(round)@.job_id || old(round)@.nonce
            >= 100_000,
    ensures
        attempt is Over,
        final(miner).hashes == old(miner).hashes,
        final(miner).reported == old(miner).reported,
        final(miner).extranonce2 == old(miner).extranonce2,
        final(round)@ == old(round)@,
{
}

/// While the pool works on the round's job and nonces are left, trying one counts
/// one hash and moves on to the next nonce. A share comes of it exactly where the
/// head with the nonce, hashed twice, is not above the target, and the share is
/// submitted with what the round holds.
pub proof fn law_trying_for_the_own_job_hashes(
    miner: &mut Miner,
    round: &mut Round,
    current_job: Option<&str>,
    wallet: &str,
    attempt: Attempt,
    nonce_bytes: Seq<u8>,
)
    requires
        call_ensures(Miner::try_nonce, (miner, round, current_job, wallet), attempt),
        current_job is Some,
        current_job->0@ == old(round)@.job_id,
        old(round)@.nonce < 100_000,
        nonce_bytes.len() == 4,
        le_value(nonce_bytes) == old(round)@.nonce,
    ensures
        ({
            let before = old(round)@;
            let digest = sha256_digest(sha256_digest(before.head + nonce_bytes));
            &&& final(miner).hashes == old(miner).hashes + 1
            &&& final(miner).reported == old(miner).reported
            &&& final(miner).extranonce2 == old(miner).extranonce2
            &&& final(round)@ == (RoundView { nonce: before.nonce + 1, ..before })
            &&& attempt matches Attempt::Hashed(share)
            &&& share is Some <==> le_value(digest) <= before.target
            &&& share matches Some(s) ==> s.submission@ == submission_of(
                wallet@,
                before.job_id,
                before.extranonce2,
                before.ntime,
                before.nonce,
            )
        }),
{
    lemma_nonce_bytes(old(round)@.nonce, nonce_bytes);
}

/// A share is submitted with the job, the extra nonce and the time of its round
/// and with the nonce that was tried.
pub proof fn law_shares_are_submitted_for_their_round(
    round: &Round,
    hash: &[u8],
    wallet: &str,
    share: Share,
)
    requires
        call_ensures(Round::share_with, (round, hash, wallet), Some(share)),
    ensures
        share.submission@ == submission_of(
            wallet@,
            round@.job_id,
            round@.extranonce2,
            round@.ntime,
            round@.nonce,
        ),
{
}

/// Beginning a round moves on to the next extra nonce and keeps the counters. The
/// round has the job's name and time, starts at the first nonce, has as many of the
/// lowest bytes of the extra nonce as the pool asked for, and has the largest
/// target that, taken as many times as the difficulty has millionths, does not
/// exceed a million times that of difficulty one.
pub proof fn law_begun_rounds(
    miner: &mut Miner,
    job: &Job,
    extranonce1: &[u8],
    extranonce2_size: usize,
    scaled_difficulty: u64,
    round: Round,
)
    requires
        call_ensures(
            Miner::begin_round,
            (miner, job, extranonce1, extranonce2_size, scaled_difficulty),
            round,
        ),
        scaled_difficulty > 0,
    ensures
        ({
            let most = 0xFFFF * pow2(208) * 1_000_000;
            let target = round@.target;
            &&& final(miner).hashes == old(miner).hashes
            &&& final(miner).reported == old(miner).reported
            &&& old(miner).extranonce2 < u64::MAX ==> final(miner).extranonce2
                == old(miner).extranonce2 + 1
            &&& old(miner).extranonce2 == u64::MAX ==> final(miner).extranonce2 == 0
            &&& round@.job_id == job.job_id@
            &&& round@.ntime == job.ntime@
            &&& round@.nonce == 0
            &&& extranonce2_size <= 8 ==> round@.extranonce2.len() == extranonce2_size
            &&& extranonce2_size > 8 ==> round@.extranonce2.len() == 8
            &&& be_value(round@.extranonce2) == final(miner).extranonce2 as int % pow(
                256,
                round@.extranonce2.len(),
            )
            &&& target * scaled_difficulty <= most < (target + 1) * scaled_difficulty
            &&& round@.head == round_of(
                job@,
                extranonce1@,
                round@.extranonce2,
                target,
            ).head
        }),
{
    law_rounds_get_the_next_extranonce(old(miner).extranonce2, extranonce2_size as nat);
    lemma_target_is_the_quotient(scaled_difficulty as nat);
}

/// A report comes exactly where more than half a second has passed. It gives all
/// hashes and twice those since the last report, and covers all of them.
pub proof fn law_reports(miner: &mut Miner, elapsed_nanos: u128, report: Option<HashReport>)
    requires
        call_ensures(Miner::report, (miner, elapsed_nanos), report),
    ensures
        report is Some <==> elapsed_nanos > 500_000_000,
        report matches Some(r) ==> {
            &&& r.hashes == old(miner).hashes
            &&& r.hashrate == 2 * old(miner).hashes - 2 * old(miner).reported
            &&& final(miner).reported == old(miner).hashes
        },
        report is None ==> final(miner).reported == old(miner).reported,
        final(miner).hashes == old(miner).hashes,
        final(miner).extranonce2 == old(miner).extranonce2,
{
}

} // verus!
