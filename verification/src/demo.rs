//! The demo: invented events for trying the dashboard without a pool.

use crate::events::{event_views, MinerEvent, MinerEventView};
use crate::text::{
    decimal, decimal_value, law_decimal_digits, law_decimal_reads_back, lemma_zeros_count_nothing,
    padded_decimal_text, same_text, zero_padded,
};
use vstd::prelude::*;

verus! {

/// The argument that asks for the demo.
pub const DEMO_FLAG: &'static str = "--demo";

/// The bits of the double-precision number nearest to one thousandth, the
/// demo's difficulty.
pub const DEMO_DIFFICULTY_BITS: u64 = 0x3F50_624D_D2F1_A9FC;

/// The demo's counters.
#[derive(Clone, Copy, Debug, PartialEq, Eq, Structural)]
pub struct Demo {
    pub hashes: u64,
    pub tick: u64,
    pub job_num: u32,
}

/// The name of a demo job.
pub open spec fn demo_job(job_num: nat) -> Seq<char> {
    "demo-job-"@ + zero_padded(decimal(job_num), 4)
}

/// The counters after a tick with the given hash rate.
pub open spec fn demo_after(demo: Demo, hashrate: u64) -> Demo {
    let tick = (demo.tick + 1) as u64;
    Demo {
        hashes: (demo.hashes + hashrate as int / 2) as u64,
        tick,
        job_num: if tick % 10 == 0 {
            (demo.job_num + 1) as u32
        } else {
            demo.job_num
        },
    }
}

/// Whether a tick's counters fit their types.
pub open spec fn demo_can_tick(demo: Demo, hashrate: u64) -> bool {
    &&& demo.tick < u64::MAX
    &&& demo.hashes + hashrate as int / 2 <= u64::MAX
    &&& (demo.tick + 1) % 10 == 0 ==> demo.job_num < u32::MAX
}

/// The share that every sixth tick finds.
pub open spec fn demo_accepted(demo: Demo) -> Seq<MinerEventView> {
    if (demo.tick + 1) % 6 == 0 {
        seq![
            MinerEventView::ShareAccepted,
            MinerEventView::Log(
                "[demo] fake share accepted (job "@ + demo_job(demo.job_num as nat) + ")"@,
            ),
        ]
    } else {
        Seq::empty()
    }
}

/// The share that every seventeenth tick loses.
pub open spec fn demo_rejected(demo: Demo) -> Seq<MinerEventView> {
    if (demo.tick + 1) % 17 == 0 {
        seq![MinerEventView::ShareRejected("demo: simulated stale share"@)]
    } else {
        Seq::empty()
    }
}

/// The job that every tenth tick brings.
pub open spec fn demo_new_job(demo: Demo) -> Seq<MinerEventView> {
    if (demo.tick + 1) % 10 == 0 {
        seq![MinerEventView::NewJob(demo_job((demo.job_num + 1) as nat))]
    } else {
        Seq::empty()
    }
}

/// The events of a tick.
pub open spec fn demo_events(demo: Demo, hashrate: u64) -> Seq<MinerEventView> {
    seq![MinerEventView::HashUpdate { hashes: demo_after(demo, hashrate).hashes, hashrate }]
        + demo_accepted(demo) + demo_rejected(demo) + demo_new_job(demo)
}

/// Whether one of the arguments is the one that asks for the demo.
pub open spec fn asks_for_demo(args: Seq<String>) -> bool {
    exists|i: int| 0 <= i < args.len() && #[trigger] args[i]@ == "--demo"@
}

/// Whether one of the arguments asks for the demo.
pub fn demo_requested(args: &Vec<String>) -> (requested: bool)
    ensures
        requested == exists|i: int| 0 <= i < args@.len() && #[trigger] args@[i]@ == "--demo"@,
        requested == asks_for_demo(args@),
{
    let mut i: usize = 0;
    while i < args.len()
        invariant
            i <= args@.len(),
            forall|j: int| 0 <= j < i ==> #[trigger] args@[j]@ != "--demo"@,
        decreases args@.len() - i,
    {
        if same_text(args[i].as_str(), DEMO_FLAG) {
            assert(args@[i as int]@ == "--demo"@);
            return true;
        }
        i = i + 1;
    }
    false
}

/// The name of a demo job.
fn demo_job_name(job_num: u32) -> (name: String)
    ensures
        name@ == demo_job(job_num as nat),
{
    let mut name: String = "demo-job-".to_owned();
    name.append(padded_decimal_text(job_num as u64, 4).as_str());
    name
}

impl Demo {
    /// Starts the demo: a connection, a difficulty, a job and a warning.
    pub fn start() -> (started: (Demo, Vec<MinerEvent>))
        ensures
            started.0 == (Demo { hashes: 0, tick: 0, job_num: 1 }),
            event_views(started.1@) == seq![
                MinerEventView::Connected("DEMO MODE (no real pool)"@),
                MinerEventView::Difficulty(DEMO_DIFFICULTY_BITS),
                MinerEventView::NewJob("demo-job-0001"@),
                MinerEventView::Log("this is fake data, no real mining is happening"@),
            ],
    {
        let mut events: Vec<MinerEvent> = Vec::new();
        events.push(MinerEvent::Connected("DEMO MODE (no real pool)".to_owned()));
        events.push(MinerEvent::Difficulty(DEMO_DIFFICULTY_BITS));
        events.push(MinerEvent::NewJob("demo-job-0001".to_owned()));
        events.push(MinerEvent::Log("this is fake data, no real mining is happening".to_owned()));
        assert(event_views(events@) =~= seq![
            MinerEventView::Connected("DEMO MODE (no real pool)"@),
            MinerEventView::Difficulty(DEMO_DIFFICULTY_BITS),
            MinerEventView::NewJob("demo-job-0001"@),
            MinerEventView::Log("this is fake data, no real mining is happening"@),
        ]);
        (Demo { hashes: 0, tick: 0, job_num: 1 }, events)
    }

    /// Whether the counters have room for another tick.
    pub fn can_tick(&self, hashrate: u64) -> (result: bool)
        ensures
            result == demo_can_tick(*self, hashrate),
    {
        self.tick < u64::MAX && self.hashes <= u64::MAX - hashrate / 2 && ((self.tick + 1) % 10
            != 0 || self.job_num < u32::MAX)
    }

    /// Makes up half a second of mining at the given hash rate.
    pub fn tick(&mut self, hashrate: u64) -> (events: Vec<MinerEvent>)
        requires
            demo_can_tick(*old(self), hashrate),
        ensures
            *final(self) == demo_after(*old(self), hashrate),
            event_views(events@) == demo_events(*old(self), hashrate),
    {
        self.tick = self.tick + 1;
        self.hashes = self.hashes + hashrate / 2;
        let mut events: Vec<MinerEvent> = Vec::new();
        events.push(MinerEvent::HashUpdate { hashes: self.hashes, hashrate });
        let ghost report = seq![MinerEventView::HashUpdate { hashes: self.hashes, hashrate }];
        assert(event_views(events@) =~= report);
        if self.tick % 6 == 0 {
            let mut line: String = "[demo] fake share accepted (job ".to_owned();
            line.append(demo_job_name(self.job_num).as_str());
            line.append(")");
            events.push(MinerEvent::ShareAccepted);
            events.push(MinerEvent::Log(line));
        }
        assert(event_views(events@) =~= report + demo_accepted(*old(self)));
        if self.tick % 17 == 0 {
            events.push(MinerEvent::ShareRejected("demo: simulated stale share".to_owned()));
        }
        assert(event_views(events@) =~= report + demo_accepted(*old(self)) + demo_rejected(
            *old(self),
        ));
        if self.tick % 10 == 0 {
            self.job_num = self.job_num + 1;
            events.push(MinerEvent::NewJob(demo_job_name(self.job_num)));
        }
        assert(event_views(events@) =~= demo_events(*old(self), hashrate));
        events
    }
}

/// The job that the demo starts with is named as the later ones are.
pub proof fn law_first_job_name()
    ensures
        demo_job(1) == "demo-job-0001"@,
{
    reveal_strlit("demo-job-");
    reveal_strlit("demo-job-0001");
    assert(demo_job(1) =~= "demo-job-0001"@);
}

/// Whether the first event, and no other, is a report of the given hash count
/// and rate.
pub open spec fn reports(events: Seq<MinerEventView>, hashes: int, hashrate: u64) -> bool {
    &&& events.len() > 0
    &&& events[0] matches MinerEventView::HashUpdate { hashes: h, hashrate: r } && h == hashes && r
        == hashrate
    &&& forall|i: int| 1 <= i < events.len() ==> !(#[trigger] events[i] is HashUpdate)
}

/// Each tick reports its hash rate, and half of it more than was counted before
/// it; that is what the next tick counts on from.
pub proof fn law_reports_add_up(demo: Demo, first: u64, second: u64)
    requires
        demo_can_tick(demo, first),
        demo_can_tick(demo_after(demo, first), second),
    ensures
        reports(demo_events(demo, first), demo.hashes + first as int / 2, first),
        reports(
            demo_events(demo_after(demo, first), second),
            demo.hashes + first as int / 2 + second as int / 2,
            second,
        ),
{
}

/// The counters of a demo after a tick at each of the given hash rates.
pub open spec fn demo_run(rates: Seq<u64>) -> Demo
    decreases rates.len(),
{
    if rates.len() == 0 {
        Demo { hashes: 0, tick: 0, job_num: 1 }
    } else {
        demo_after(demo_run(rates.drop_last()), rates.last())
    }
}

/// Whether the counters fit their types through all of those ticks.
pub open spec fn demo_can_run(rates: Seq<u64>) -> bool
    decreases rates.len(),
{
    rates.len() > 0 ==> demo_can_run(rates.drop_last()) && demo_can_tick(
        demo_run(rates.drop_last()),
        rates.last(),
    )
}

/// The halves of the given hash rates, added up.
pub open spec fn half_sum(rates: Seq<u64>) -> int
    decreases rates.len(),
{
    if rates.len() == 0 {
        0
    } else {
        half_sum(rates.drop_last()) + rates.last() as int / 2
    }
}

/// After any number of ticks the hash count is the sum of the halves of all hash
/// rates, every tick was counted, and every tenth brought a new job.
pub proof fn law_run_counts_everything(rates: Seq<u64>)
    requires
        demo_can_run(rates),
    ensures
        demo_run(rates).hashes == half_sum(rates),
        demo_run(rates).tick == rates.len(),
        demo_run(rates).job_num == 1 + rates.len() as int / 10,
    decreases rates.len(),
{
    if rates.len() > 0 {
        law_run_counts_everything(rates.drop_last());
    }
}

/// The name of a job is a fixed text and then at least four digits that stand for
/// its number.
pub proof fn law_jobs_are_numbered(job_num: u32)
    ensures
        ({
            let name = demo_job(job_num as nat);
            let start = "demo-job-"@;
            let digits = name.skip(start.len() as int);
            &&& name.take(start.len() as int) == start
            &&& digits.len() >= 4
            &&& digits.len() > 4 ==> digits[0] != '0'
            &&& decimal_value(digits) == job_num
        }),
{
    let name = demo_job(job_num as nat);
    let start = "demo-job-"@;
    let digits = decimal(job_num as nat);
    assert(name.take(start.len() as int) =~= start);
    assert(name.skip(start.len() as int) =~= zero_padded(digits, 4));
    law_decimal_reads_back(job_num as nat);
    law_decimal_digits(job_num as nat);
    if digits.len() < 4 {
        lemma_zeros_count_nothing((4 - digits.len()) as nat, digits);
    }
}

/// Every sixth tick has a share accepted and says so in the log, with the job that
/// was mined until then; every seventeenth has one rejected; every tenth brings
/// the next job. The events come in that order, after the report, and there are no
/// others.
pub proof fn law_ticks_bring_their_events(demo: Demo, hashrate: u64)
    requires
        demo_can_tick(demo, hashrate),
    ensures
        ({
            let events = demo_events(demo, hashrate);
            let tick = demo.tick + 1;
            let a: int = if tick % 6 == 0 {
                2
            } else {
                0
            };
            let r: int = if tick % 17 == 0 {
                1
            } else {
                0
            };
            let j: int = if tick % 10 == 0 {
                1
            } else {
                0
            };
            &&& events.len() == 1 + a + r + j
            &&& events[0] == MinerEventView::HashUpdate {
                hashes: (demo.hashes + hashrate as int / 2) as u64,
                hashrate,
            }
            &&& a > 0 ==> events[1] == MinerEventView::ShareAccepted
            &&& a > 0 ==> events[2] == MinerEventView::Log(
                "[demo] fake share accepted (job "@ + demo_job(demo.job_num as nat) + ")"@,
            )
            &&& r > 0 ==> events[1 + a] == MinerEventView::ShareRejected(
                "demo: simulated stale share"@,
            )
            &&& j > 0 ==> events[1 + a + r] == MinerEventView::NewJob(
                demo_job((demo.job_num + 1) as nat),
            )
        }),
{
}

/// The demo goes on for as long as its counters stay below half of what they can
/// hold.
pub proof fn law_the_demo_goes_on(demo: Demo, hashrate: u64)
    requires
        demo.hashes <= u64::MAX / 2,
        demo.tick <= u64::MAX / 2,
        demo.job_num <= u32::MAX / 2,
    ensures
        demo_can_tick(demo, hashrate),
{
}

/// The demo is asked for exactly where some argument, at any place, is its flag.
pub proof fn law_the_flag_asks_for_the_demo(args: &Vec<String>, requested: bool)
    requires
        call_ensures(demo_requested, (args,), requested),
    ensures
        !requested ==> forall|i: int|
            0 <= i < args@.len() ==> #[trigger] args@[i]@ != "--demo"@,
        requested ==> exists|i: int| 0 <= i < args@.len() && #[trigger] args@[i]@ == "--demo"@,
{
}

/// A tick counts itself and half of its hash rate, and its first event, and no
/// other, reports the new count and that rate.
pub proof fn law_ticks_report(demo: &mut Demo, hashrate: u64, events: Vec<MinerEvent>)
    requires
        call_ensures(Demo::tick, (demo, hashrate), events),
        demo_can_tick(*old(demo), hashrate),
    ensures
        final(demo).hashes == old(demo).hashes + hashrate as int / 2,
        final(demo).tick == old(demo).tick + 1,
        reports(event_views(events@), old(demo).hashes + hashrate as int / 2, hashrate),
{
}

} // verus!
