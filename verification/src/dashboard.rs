//! What the dashboard knows and what it shows.

use crate::events::{event_views, MinerEvent, MinerEventView};
use std::collections::VecDeque;
use vstd::prelude::*;

verus! {

/// How many hash rates the history keeps.
pub const HISTORY_LEN: usize = 24;

/// How many lines the log keeps.
pub const LOG_LEN: usize = 14;

/// How many frames the pickaxe animation has.
pub const PICKAXE_FRAME_COUNT: usize = 11;

/// The connection and the counters.
#[derive(Clone, Debug, PartialEq, Eq)]
pub struct PoolStatus {
    pub connected: bool,
    pub pool_addr: String,
    pub hashes: u64,
    pub hashrate: u64,
    /// The bits of the double-precision number that is the difficulty.
    pub difficulty: u64,
    pub shares_accepted: u64,
    pub shares_rejected: u64,
    pub job_id: String,
}

/// What a [`PoolStatus`] holds.
#[verifier::ext_equal]
pub struct PoolStatusView {
    pub connected: bool,
    pub pool_addr: Seq<char>,
    pub hashes: u64,
    pub hashrate: u64,
    pub difficulty: u64,
    pub shares_accepted: nat,
    pub shares_rejected: nat,
    pub job_id: Seq<char>,
}

impl View for PoolStatus {
    type V = PoolStatusView;

    open spec fn view(&self) -> PoolStatusView {
        PoolStatusView {
            connected: self.connected,
            pool_addr: self.pool_addr@,
            hashes: self.hashes,
            hashrate: self.hashrate,
            difficulty: self.difficulty,
            shares_accepted: self.shares_accepted as nat,
            shares_rejected: self.shares_rejected as nat,
            job_id: self.job_id@,
        }
    }
}

/// Everything that the dashboard shows.
#[derive(Debug)]
pub struct Dashboard {
    pub status: PoolStatus,
    /// The latest hash rates, the oldest first.
    pub history: VecDeque<u64>,
    /// The latest log lines, the newest first.
    pub log: VecDeque<String>,
}

/// What a [`Dashboard`] holds.
#[verifier::ext_equal]
pub struct DashboardView {
    pub status: PoolStatusView,
    pub history: Seq<u64>,
    pub log: Seq<Seq<char>>,
}

/// The texts of several strings.
pub open spec fn texts(strings: Seq<String>) -> Seq<Seq<char>> {
    Seq::new(strings.len(), |i: int| strings[i]@)
}

impl View for Dashboard {
    type V = DashboardView;

    open spec fn view(&self) -> DashboardView {
        DashboardView { status: self.status@, history: self.history@, log: texts(self.log@) }
    }
}

/// A log with one more line in front, of which only the newest are kept.
pub open spec fn logged(log: Seq<Seq<char>>, line: Seq<char>) -> Seq<Seq<char>> {
    let all = seq![line] + log;
    if all.len() > 14 {
        all.take(14)
    } else {
        all
    }
}

/// A history with one more hash rate at its end, of which only the latest are
/// kept.
pub open spec fn remembered(history: Seq<u64>, hashrate: u64) -> Seq<u64> {
    let all = history.push(hashrate);
    if all.len() > 24 {
        all.drop_first()
    } else {
        all
    }
}

impl DashboardView {
    /// The dashboard before anything has happened.
    pub open spec fn empty() -> DashboardView {
        DashboardView {
            status: PoolStatusView {
                connected: false,
                pool_addr: Seq::empty(),
                hashes: 0,
                hashrate: 0,
                difficulty: 0,
                shares_accepted: 0,
                shares_rejected: 0,
                job_id: Seq::empty(),
            },
            history: Seq::empty(),
            log: Seq::empty(),
        }
    }

    /// The history and the log are no longer than they may be.
    pub open spec fn wf(self) -> bool {
        &&& self.history.len() <= 24
        &&& self.log.len() <= 14
    }

    /// The dashboard after an event.
    pub open spec fn after(self, event: MinerEventView) -> DashboardView {
        match event {
            MinerEventView::Connected(addr) => DashboardView {
                status: PoolStatusView { connected: true, pool_addr: addr, ..self.status },
                log: logged(self.log, "connected to "@ + addr),
                ..self
            },
            MinerEventView::Disconnected => DashboardView {
                status: PoolStatusView { connected: false, ..self.status },
                log: logged(self.log, "disconnected from pool"@),
                ..self
            },
            MinerEventView::Difficulty(bits) => DashboardView {
                status: PoolStatusView { difficulty: bits, ..self.status },
                ..self
            },
            MinerEventView::NewJob(id) => DashboardView {
                status: PoolStatusView { job_id: id, ..self.status },
                ..self
            },
            MinerEventView::HashUpdate { hashes, hashrate } => DashboardView {
                status: PoolStatusView { hashes, hashrate, ..self.status },
                history: remembered(self.history, hashrate),
                ..self
            },
            MinerEventView::ShareAccepted => DashboardView {
                status: PoolStatusView {
                    shares_accepted: self.status.shares_accepted + 1,
                    ..self.status
                },
                log: logged(self.log, "share accepted"@),
                ..self
            },
            MinerEventView::ShareRejected(reason) => DashboardView {
                status: PoolStatusView {
                    shares_rejected: self.status.shares_rejected + 1,
                    ..self.status
                },
                log: logged(self.log, "share rejected: "@ + reason),
                ..self
            },
            MinerEventView::Log(message) => DashboardView {
                log: logged(self.log, message),
                ..self
            },
        }
    }

    /// The dashboard after several events, in their order.
    pub open spec fn after_all(self, events: Seq<MinerEventView>) -> DashboardView
        decreases events.len(),
    {
        if events.len() == 0 {
            self
        } else {
            self.after_all(events.drop_last()).after(events.last())
        }
    }
}

impl Dashboard {
    /// The history and the log are no longer than they may be.
    pub open spec fn wf(self) -> bool {
        self@.wf()
    }

    /// A dashboard before anything has happened.
    pub fn new() -> (dashboard: Dashboard)
        ensures
            dashboard@ == DashboardView::empty(),
            dashboard.wf(),
    {
        let dashboard: Dashboard = Dashboard {
            status: PoolStatus {
                connected: false,
                pool_addr: String::new(),
                hashes: 0,
                hashrate: 0,
                difficulty: 0,
                shares_accepted: 0,
                shares_rejected: 0,
                job_id: String::new(),
            },
            history: VecDeque::new(),
            log: VecDeque::new(),
        };
        assert(dashboard@ =~~= DashboardView::empty());
        dashboard
    }

    /// Puts a line in front of the log.
    fn push_log(&mut self, line: String)
        requires
            old(self).wf(),
        ensures
            final(self).wf(),
            final(self)@ == (DashboardView { log: logged(old(self)@.log, line@), ..old(self)@ }),
    {
        self.log.push_front(line);
        assert(texts(self.log@) =~= seq![line@] + old(self)@.log);
        if self.log.len() > LOG_LEN {
            let ghost longer = self.log@;
            self.log.truncate(LOG_LEN);
            assert(texts(self.log@) =~= texts(longer).take(14));
        }
        assert(self@ =~= (DashboardView { log: logged(old(self)@.log, line@), ..old(self)@ }));
    }

    /// Puts a hash rate at the end of the history.
    fn push_history(&mut self, hashrate: u64)
        requires
            old(self).wf(),
        ensures
            final(self).wf(),
            final(self)@ == (DashboardView {
                history: remembered(old(self)@.history, hashrate),
                ..old(self)@
            }),
    {
        self.history.push_back(hashrate);
        if self.history.len() > HISTORY_LEN {
            self.history.pop_front();
        }
        assert(self@ =~= (DashboardView {
            history: remembered(old(self)@.history, hashrate),
            ..old(self)@
        }));
    }

    /// Takes one event in.
    pub fn apply(&mut self, event: MinerEvent)
        requires
            old(self).wf(),
            event is ShareAccepted ==> old(self).status.shares_accepted < u64::MAX,
            event is ShareRejected ==> old(self).status.shares_rejected < u64::MAX,
        ensures
            final(self).wf(),
            final(self)@ == old(self)@.after(event@),
    {
        match event {
            MinerEvent::Connected(addr) => {
                let mut line: String = "connected to ".to_owned();
                line.append(addr.as_str());
                self.status.connected = true;
                self.status.pool_addr = addr;
                self.push_log(line);
            },
            MinerEvent::Disconnected => {
                self.status.connected = false;
                self.push_log("disconnected from pool".to_owned());
            },
            MinerEvent::Difficulty(bits) => {
                self.status.difficulty = bits;
            },
            MinerEvent::NewJob(id) => {
                self.status.job_id = id;
            },
            MinerEvent::HashUpdate { hashes, hashrate } => {
                self.status.hashes = hashes;
                self.status.hashrate = hashrate;
                self.push_history(hashrate);
            },
            MinerEvent::ShareAccepted => {
                self.status.shares_accepted = self.status.shares_accepted + 1;
                self.push_log("share accepted".to_owned());
            },
            MinerEvent::ShareRejected(reason) => {
                let mut line: String = "share rejected: ".to_owned();
                line.append(reason.as_str());
                self.status.shares_rejected = self.status.shares_rejected + 1;
                self.push_log(line);
            },
            MinerEvent::Log(message) => {
                self.push_log(message);
            },
        }
        assert(self@ =~= old(self)@.after(event@));
    }

    /// Takes events in, in their order.
    pub fn receive_events(&mut self, events: Vec<MinerEvent>)
        requires
            old(self).wf(),
            old(self).status.shares_accepted + accepted_count(event_views(events@)) <= u64::MAX,
            old(self).status.shares_rejected + rejected_count(event_views(events@)) <= u64::MAX,
        ensures
            final(self).wf(),
            final(self)@ == old(self)@.after_all(event_views(events@)),
    {
        let ghost start = self@;
        let ghost views = event_views(events@);
        for event in iter: events
            invariant
                iter.seq() == events@,
                views == event_views(events@),
                self.wf(),
                start == old(self)@,
                self@ == start.after_all(views.take(iter.index() as int)),
                start.status.shares_accepted + accepted_count(views) <= u64::MAX,
                start.status.shares_rejected + rejected_count(views) <= u64::MAX,
        {
            let ghost n = iter.index() as int;
            proof {
                assert(event == events@[n]);
                let next = views.take(n + 1);
                assert(next.drop_last() =~= views.take(n));
                assert(next.last() == event@);
                law_shares_are_counted(start, views.take(n));
                lemma_counts_grow(views, n + 1);
            }
            self.apply(event);
        }
        assert(views.take(events@.len() as int) =~= views);
    }
}

/// The events that accept a share.
pub open spec fn accepted_count(events: Seq<MinerEventView>) -> nat
    decreases events.len(),
{
    if events.len() == 0 {
        0
    } else {
        accepted_count(events.drop_last()) + if events.last() is ShareAccepted {
            1nat
        } else {
            0
        }
    }
}

/// The events that reject a share.
pub open spec fn rejected_count(events: Seq<MinerEventView>) -> nat
    decreases events.len(),
{
    if events.len() == 0 {
        0
    } else {
        rejected_count(events.drop_last()) + if events.last() is ShareRejected {
            1nat
        } else {
            0
        }
    }
}

/// The hash rates that events report, in their order.
pub open spec fn reported_rates(events: Seq<MinerEventView>) -> Seq<u64>
    decreases events.len(),
{
    if events.len() == 0 {
        Seq::empty()
    } else {
        let rates = reported_rates(events.drop_last());
        match events.last() {
            MinerEventView::HashUpdate { hashrate, .. } => rates.push(hashrate),
            _ => rates,
        }
    }
}

/// The last elements of a sequence, at most `len` of them.
pub open spec fn last_of(rates: Seq<u64>, len: int) -> Seq<u64> {
    if rates.len() <= len {
        rates
    } else {
        rates.skip(rates.len() - len)
    }
}

/// However many events come, the history and the log stay within their bounds.
pub proof fn law_bounds_are_kept(dashboard: DashboardView, events: Seq<MinerEventView>)
    requires
        dashboard.wf(),
    ensures
        dashboard.after_all(events).wf(),
    decreases events.len(),
{
    if events.len() > 0 {
        law_bounds_are_kept(dashboard, events.drop_last());
    }
}

/// The share counters count exactly the events that accept and reject shares.
pub proof fn law_shares_are_counted(dashboard: DashboardView, events: Seq<MinerEventView>)
    ensures
        dashboard.after_all(events).status.shares_accepted == dashboard.status.shares_accepted
            + accepted_count(events),
        dashboard.after_all(events).status.shares_rejected == dashboard.status.shares_rejected
            + rejected_count(events),
    decreases events.len(),
{
    if events.len() > 0 {
        law_shares_are_counted(dashboard, events.drop_last());
    }
}

/// The history is the latest of the hash rates that it held and those that were
/// reported since, in their order.
pub proof fn law_history_is_the_latest_rates(
    dashboard: DashboardView,
    events: Seq<MinerEventView>,
)
    requires
        dashboard.history.len() <= 24,
    ensures
        dashboard.after_all(events).history == last_of(
            dashboard.history + reported_rates(events),
            24,
        ),
    decreases events.len(),
{
    if events.len() == 0 {
        assert(dashboard.history + reported_rates(events) =~= dashboard.history);
    } else {
        law_history_is_the_latest_rates(dashboard, events.drop_last());
        let rates = dashboard.history + reported_rates(events.drop_last());
        match events.last() {
            MinerEventView::HashUpdate { hashrate, .. } => {
                assert(dashboard.history + reported_rates(events) =~= rates.push(hashrate));
                assert(remembered(last_of(rates, 24), hashrate) =~= last_of(
                    rates.push(hashrate),
                    24,
                ));
            },
            _ => {},
        }
    }
}

/// The line that an event puts into the log, where it does.
pub open spec fn log_line(event: MinerEventView) -> Option<Seq<char>> {
    match event {
        MinerEventView::Connected(addr) => Some("connected to "@ + addr),
        MinerEventView::Disconnected => Some("disconnected from pool"@),
        MinerEventView::ShareAccepted => Some("share accepted"@),
        MinerEventView::ShareRejected(reason) => Some("share rejected: "@ + reason),
        MinerEventView::Log(message) => Some(message),
        _ => None,
    }
}

/// The lines that events put into the log, the newest first.
pub open spec fn newest_lines(events: Seq<MinerEventView>) -> Seq<Seq<char>>
    decreases events.len(),
{
    if events.len() == 0 {
        Seq::empty()
    } else {
        let before = newest_lines(events.drop_last());
        match log_line(events.last()) {
            Some(line) => seq![line] + before,
            None => before,
        }
    }
}

/// The first elements of a sequence, at most `len` of them.
pub open spec fn first_of(lines: Seq<Seq<char>>, len: int) -> Seq<Seq<char>> {
    if lines.len() <= len {
        lines
    } else {
        lines.take(len)
    }
}

/// The log is the newest of the lines that events gave and those that it held,
/// the newest first.
pub proof fn law_log_is_the_newest_lines(dashboard: DashboardView, events: Seq<MinerEventView>)
    requires
        dashboard.log.len() <= 14,
    ensures
        dashboard.after_all(events).log == first_of(newest_lines(events) + dashboard.log, 14),
    decreases events.len(),
{
    if events.len() == 0 {
        assert(newest_lines(events) + dashboard.log =~= dashboard.log);
    } else {
        law_log_is_the_newest_lines(dashboard, events.drop_last());
        let lines = newest_lines(events.drop_last()) + dashboard.log;
        match log_line(events.last()) {
            Some(line) => {
                assert(newest_lines(events) + dashboard.log =~= seq![line] + lines);
                assert(logged(first_of(lines, 14), line) =~= first_of(seq![line] + lines, 14));
            },
            None => {},
        }
    }
}

/// Events that come in two batches leave the dashboard as they would in one, and
/// a batch without events changes nothing.
pub proof fn law_batches_add_up(
    dashboard: DashboardView,
    first: Seq<MinerEventView>,
    second: Seq<MinerEventView>,
)
    ensures
        dashboard.after_all(first + second) == dashboard.after_all(first).after_all(second),
        dashboard.after_all(Seq::empty()) == dashboard,
    decreases second.len(),
{
    if second.len() == 0 {
        assert(first + second =~= first);
    } else {
        law_batches_add_up(dashboard, first, second.drop_last());
        assert((first + second).drop_last() =~= first + second.drop_last());
    }
}

/// The hash count and the hash rate of the last report among events.
pub open spec fn latest_report(events: Seq<MinerEventView>) -> Option<(u64, u64)>
    decreases events.len(),
{
    if events.len() == 0 {
        None
    } else {
        match events.last() {
            MinerEventView::HashUpdate { hashes, hashrate } => Some((hashes, hashrate)),
            _ => latest_report(events.drop_last()),
        }
    }
}

/// Whether the last of the events that connect or disconnect connects.
pub open spec fn latest_connection(events: Seq<MinerEventView>) -> Option<bool>
    decreases events.len(),
{
    if events.len() == 0 {
        None
    } else {
        match events.last() {
            MinerEventView::Connected(_) => Some(true),
            MinerEventView::Disconnected => Some(false),
            _ => latest_connection(events.drop_last()),
        }
    }
}

/// The counters shown are those of the last report, and whether the pool is
/// connected is what was last said of it; where nothing was said they stay.
pub proof fn law_the_latest_word_counts(dashboard: DashboardView, events: Seq<MinerEventView>)
    ensures
        ({
            let before = dashboard.status;
            let after = dashboard.after_all(events).status;
            &&& (after.hashes, after.hashrate) == (match latest_report(events) {
                Some(report) => report,
                None => (before.hashes, before.hashrate),
            })
            &&& after.connected == (match latest_connection(events) {
                Some(connected) => connected,
                None => before.connected,
            })
        }),
    decreases events.len(),
{
    if events.len() > 0 {
        law_the_latest_word_counts(dashboard, events.drop_last());
    }
}

/// Losing the connection changes nothing of the status but that, and a line for
/// the log changes none of it.
pub proof fn law_status_is_kept(dashboard: DashboardView, message: Seq<char>)
    ensures
        dashboard.after(MinerEventView::Disconnected).status == (PoolStatusView {
            connected: false,
            ..dashboard.status
        }),
        dashboard.after(MinerEventView::Log(message)).status == dashboard.status,
{
}

/// Part of some events accepts and rejects no more shares than all of them.
proof fn lemma_counts_grow(events: Seq<MinerEventView>, n: int)
    requires
        0 <= n <= events.len(),
    ensures
        accepted_count(events.take(n)) <= accepted_count(events),
        rejected_count(events.take(n)) <= rejected_count(events),
    decreases events.len(),
{
    if n == events.len() {
        assert(events.take(n) =~= events);
    } else {
        assert(events.drop_last().take(n) =~= events.take(n));
        lemma_counts_grow(events.drop_last(), n);
    }
}

/// A line that is logged stands in front, the lines before it follow in their
/// order, and only what would be the fifteenth is dropped.
pub proof fn law_new_lines_come_first(dashboard: DashboardView, message: Seq<char>, i: int)
    requires
        dashboard.log.len() <= 14,
    ensures
        ({
            let log = dashboard.after(MinerEventView::Log(message)).log;
            &&& log.len() == (if dashboard.log.len() < 14 {
                dashboard.log.len() + 1
            } else {
                14
            })
            &&& log[0] == message
            &&& 0 < i < log.len() ==> log[i] == dashboard.log[i - 1]
        }),
{
}

/// A hash rate that is reported stands at the end of the history, the others stay
/// before it in their order, and only what would be the twenty-fifth, the oldest,
/// is dropped.
pub proof fn law_new_rates_come_last(
    dashboard: DashboardView,
    hashes: u64,
    hashrate: u64,
    i: int,
)
    requires
        dashboard.history.len() <= 24,
    ensures
        ({
            let old = dashboard.history;
            let new = dashboard.after(MinerEventView::HashUpdate { hashes, hashrate }).history;
            &&& new.len() == (if old.len() < 24 {
                old.len() + 1
            } else {
                24
            })
            &&& new.last() == hashrate
            &&& 0 <= i < new.len() - 1 ==> new[i] == old[old.len() - new.len() + 1 + i]
        }),
{
}

/// What the log says of an event, and the whole status that it leaves: only what
/// the event is about changes. Whatever is said is logged as a line would be.
pub proof fn law_events_change_what_they_are_about(
    dashboard: DashboardView,
    text: Seq<char>,
    a: u64,
    b: u64,
)
    ensures
        ({
            let old = dashboard.status;
            let connected = dashboard.after(MinerEventView::Connected(text));
            let disconnected = dashboard.after(MinerEventView::Disconnected);
            let difficulty = dashboard.after(MinerEventView::Difficulty(a));
            let job = dashboard.after(MinerEventView::NewJob(text));
            let report = dashboard.after(MinerEventView::HashUpdate { hashes: a, hashrate: b });
            let accepted = dashboard.after(MinerEventView::ShareAccepted);
            let rejected = dashboard.after(MinerEventView::ShareRejected(text));
            &&& connected.status == (PoolStatusView { connected: true, pool_addr: text, ..old })
            &&& disconnected.status == (PoolStatusView { connected: false, ..old })
            &&& difficulty.status == (PoolStatusView { difficulty: a, ..old })
            &&& job.status == (PoolStatusView { job_id: text, ..old })
            &&& report.status == (PoolStatusView { hashes: a, hashrate: b, ..old })
            &&& accepted.status == (PoolStatusView {
                shares_accepted: old.shares_accepted + 1,
                ..old
            })
            &&& rejected.status == (PoolStatusView {
                shares_rejected: old.shares_rejected + 1,
                ..old
            })
            &&& connected.log == dashboard.after(MinerEventView::Log("connected to "@ + text)).log
            &&& disconnected.log == dashboard.after(
                MinerEventView::Log("disconnected from pool"@),
            ).log
            &&& accepted.log == dashboard.after(MinerEventView::Log("share accepted"@)).log
            &&& rejected.log == dashboard.after(
                MinerEventView::Log("share rejected: "@ + text),
            ).log
            &&& difficulty.log == dashboard.log
            &&& job.log == dashboard.log
            &&& report.log == dashboard.log
            &&& connected.history == dashboard.history
            &&& disconnected.history == dashboard.history
            &&& difficulty.history == dashboard.history
            &&& job.history == dashboard.history
            &&& accepted.history == dashboard.history
            &&& rejected.history == dashboard.history
            &&& dashboard.after(MinerEventView::Log(text)).history == dashboard.history
        }),
{
}

/// The address of the last connection among events.
pub open spec fn latest_address(events: Seq<MinerEventView>) -> Option<Seq<char>>
    decreases events.len(),
{
    if events.len() == 0 {
        None
    } else {
        match events.last() {
            MinerEventView::Connected(address) => Some(address),
            _ => latest_address(events.drop_last()),
        }
    }
}

/// The name of the last job among events.
pub open spec fn latest_job(events: Seq<MinerEventView>) -> Option<Seq<char>>
    decreases events.len(),
{
    if events.len() == 0 {
        None
    } else {
        match events.last() {
            MinerEventView::NewJob(id) => Some(id),
            _ => latest_job(events.drop_last()),
        }
    }
}

/// The last difficulty among events.
pub open spec fn latest_difficulty(events: Seq<MinerEventView>) -> Option<u64>
    decreases events.len(),
{
    if events.len() == 0 {
        None
    } else {
        match events.last() {
            MinerEventView::Difficulty(bits) => Some(bits),
            _ => latest_difficulty(events.drop_last()),
        }
    }
}

/// The pool, the job and the difficulty shown are the last that events named, and
/// stay where none did.
pub proof fn law_the_latest_names_count(dashboard: DashboardView, events: Seq<MinerEventView>)
    ensures
        ({
            let before = dashboard.status;
            let after = dashboard.after_all(events).status;
            &&& after.pool_addr == (match latest_address(events) {
                Some(address) => address,
                None => before.pool_addr,
            })
            &&& after.job_id == (match latest_job(events) {
                Some(id) => id,
                None => before.job_id,
            })
            &&& after.difficulty == (match latest_difficulty(events) {
                Some(bits) => bits,
                None => before.difficulty,
            })
        }),
    decreases events.len(),
{
    if events.len() > 0 {
        law_the_latest_names_count(dashboard, events.drop_last());
    }
}

/// A dashboard starts disconnected and with nothing in it.
pub proof fn law_dashboards_start_empty(dashboard: Dashboard)
    requires
        call_ensures(Dashboard::new, (), dashboard),
    ensures
        !dashboard@.status.connected,
        dashboard@.status.pool_addr.len() == 0,
        dashboard@.status.job_id.len() == 0,
        dashboard@.status.hashes == 0 && dashboard@.status.hashrate == 0,
        dashboard@.status.difficulty == 0,
        dashboard@.status.shares_accepted == 0 && dashboard@.status.shares_rejected == 0,
        dashboard@.history.len() == 0,
        dashboard@.log.len() == 0,
{
}

/// Taking events in one by one, in their order, leaves the dashboard as taking
/// them in together does.
pub proof fn law_events_are_taken_in_order(
    dashboard: DashboardView,
    events: Seq<MinerEventView>,
    event: MinerEventView,
)
    ensures
        dashboard.after_all(seq![event]) == dashboard.after(event),
        dashboard.after_all(seq![event] + events) == dashboard.after(event).after_all(events),
{
    let single = seq![event];
    assert(single.drop_last() =~= Seq::<MinerEventView>::empty());
    assert(dashboard.after_all(single.drop_last()) == dashboard);
    law_batches_add_up(dashboard, single, events);
}

/// The counters go up by as many shares as were accepted and rejected among the
/// events that were taken in.
pub proof fn law_received_shares_are_counted(
    dashboard: &mut Dashboard,
    events: Vec<MinerEvent>,
    done: (),
)
    requires
        call_ensures(Dashboard::receive_events, (dashboard, events), done),
    ensures
        final(dashboard)@.status.shares_accepted == old(dashboard)@.status.shares_accepted
            + accepted_count(event_views(events@)),
        final(dashboard)@.status.shares_rejected == old(dashboard)@.status.shares_rejected
            + rejected_count(event_views(events@)),
{
    law_shares_are_counted(old(dashboard)@, event_views(events@));
}

} // verus!
