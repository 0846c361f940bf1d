//! The texts and tones of the dashboard's fields, its tabs and its graph.

use crate::dashboard::{texts, PoolStatus, PoolStatusView, PICKAXE_FRAME_COUNT};
use crate::text::{
    decimal, decimal_text, decimal_value, format_num, grouped, joined, law_commas_only_group,
    law_decimal_digits, law_decimal_reads_back, law_lines_are_joined, lemma_grouped_start, without,
};
use std::collections::VecDeque;
use vstd::prelude::*;

verus! {

/// A page of the window.
#[derive(Clone, Copy, Debug, PartialEq, Eq, Structural)]
pub enum Tab {
    Dashboard,
    Log,
    Pool,
}

/// A field of the dashboard page.
#[derive(Clone, Copy, Debug, PartialEq, Eq, Structural)]
pub enum DashField {
    Status,
    Hashes,
    Hashrate,
    Shares,
    Difficulty,
}

/// A field of the pool page.
#[derive(Clone, Copy, Debug, PartialEq, Eq, Structural)]
pub enum PoolField {
    Conn,
    Addr,
    Job,
    Accepted,
    Rejected,
}

/// How a field is to be coloured.
#[derive(Clone, Copy, Debug, PartialEq, Eq, Structural)]
pub enum Tone {
    Good,
    Bad,
}

/// Whether the double-precision number with these bits is above zero: its sign
/// is clear, and it is neither zero nor no number at all.
pub open spec fn is_positive_double(bits: u64) -> bool {
    0 < bits <= 0x7FF0_0000_0000_0000
}

/// A text, or a dash where it is empty.
pub open spec fn text_or_dash(text: Seq<char>) -> Seq<char> {
    if text.len() == 0 {
        "-"@
    } else {
        text
    }
}

/// The text of a field of the dashboard page. `difficulty_text` is the
/// difficulty with four decimals.
pub open spec fn dash_text_of(
    field: DashField,
    status: PoolStatusView,
    difficulty_text: Seq<char>,
) -> Seq<char> {
    match field {
        DashField::Status => if status.connected {
            "MINING"@
        } else {
            "OFFLINE"@
        },
        DashField::Hashes => grouped(decimal(status.hashes as nat)),
        DashField::Hashrate => grouped(decimal(status.hashrate as nat)) + "/s"@,
        DashField::Shares => decimal(status.shares_accepted),
        DashField::Difficulty => if is_positive_double(status.difficulty) {
            difficulty_text
        } else {
            "-"@
        },
    }
}

/// The text of a field of the pool page.
pub open spec fn pool_text_of(field: PoolField, status: PoolStatusView) -> Seq<char> {
    match field {
        PoolField::Conn => if status.connected {
            "CONNECTED"@
        } else {
            "DISCONNECTED"@
        },
        PoolField::Addr => text_or_dash(status.pool_addr),
        PoolField::Job => text_or_dash(status.job_id),
        PoolField::Accepted => decimal(status.shares_accepted),
        PoolField::Rejected => decimal(status.shares_rejected),
    }
}

/// The tone of what shows whether the pool is connected.
pub open spec fn connection_tone(connected: bool) -> Tone {
    if connected {
        Tone::Good
    } else {
        Tone::Bad
    }
}

/// The text of the log page.
pub open spec fn log_text_of(log: Seq<Seq<char>>) -> Seq<char> {
    if log.len() == 0 {
        "Waiting for pool connection..."@
    } else {
        joined(log, "\n"@)
    }
}

/// The largest of some hash rates, and at least one.
pub open spec fn scale_of(history: Seq<u64>) -> u64
    decreases history.len(),
{
    if history.len() == 0 {
        1
    } else {
        let before = scale_of(history.drop_last());
        if history.last() > before {
            history.last()
        } else {
            before
        }
    }
}

/// The hash rate at an index of the history, or zero where it has none.
pub open spec fn bar_of(history: Seq<u64>, index: int) -> u64 {
    if 0 <= index < history.len() {
        history[index]
    } else {
        0
    }
}

/// The tab that was pressed last, or the one that was active where none was.
pub open spec fn tab_after(active: Tab, pressed: Seq<Tab>) -> Tab {
    if pressed.len() == 0 {
        active
    } else {
        pressed.last()
    }
}

/// The text and, where it shows the connection, the tone of a field of the
/// dashboard page. `difficulty_text` is the difficulty with four decimals.
pub fn dash_field_text(field: DashField, status: &PoolStatus, difficulty_text: &str) -> (shown: (
    String,
    Option<Tone>,
))
    ensures
        shown.0@ == dash_text_of(field, status@, difficulty_text@),
        shown.1 == (if field == DashField::Status {
            Some(connection_tone(status.connected))
        } else {
            None
        }),
{
    match field {
        DashField::Status => if status.connected {
            ("MINING".to_owned(), Some(Tone::Good))
        } else {
            ("OFFLINE".to_owned(), Some(Tone::Bad))
        },
        DashField::Hashes => (format_num(status.hashes), None),
        DashField::Hashrate => {
            let mut text: String = format_num(status.hashrate);
            text.append("/s");
            (text, None)
        },
        DashField::Shares => (decimal_text(status.shares_accepted), None),
        DashField::Difficulty => if 0 < status.difficulty && status.difficulty
            <= 0x7FF0_0000_0000_0000 {
            (difficulty_text.to_owned(), None)
        } else {
            ("-".to_owned(), None)
        },
    }
}

/// A copy of `text`, or a dash where it is empty.
fn dash_if_empty(text: &String) -> (shown: String)
    ensures
        shown@ == text_or_dash(text@),
{
    if text.as_str().is_empty() {
        "-".to_owned()
    } else {
        text.clone()
    }
}

/// The text and, where it shows the connection, the tone of a field of the pool
/// page.
pub fn pool_field_text(field: PoolField, status: &PoolStatus) -> (shown: (String, Option<Tone>))
    ensures
        shown.0@ == pool_text_of(field, status@),
        shown.1 == (if field == PoolField::Conn {
            Some(connection_tone(status.connected))
        } else {
            None
        }),
{
    match field {
        PoolField::Conn => if status.connected {
            ("CONNECTED".to_owned(), Some(Tone::Good))
        } else {
            ("DISCONNECTED".to_owned(), Some(Tone::Bad))
        },
        PoolField::Addr => (dash_if_empty(&status.pool_addr), None),
        PoolField::Job => (dash_if_empty(&status.job_id), None),
        PoolField::Accepted => (decimal_text(status.shares_accepted), None),
        PoolField::Rejected => (decimal_text(status.shares_rejected), None),
    }
}

/// The text of the log page: its lines, the newest first.
pub fn log_text(log: &VecDeque<String>) -> (shown: String)
    ensures
        shown@ == log_text_of(texts(log@)),
{
    let len: usize = log.len();
    if len == 0 {
        return "Waiting for pool connection...".to_owned();
    }
    let ghost lines = texts(log@);
    let mut shown: String = log[0].clone();
    let mut i: usize = 1;
    assert(lines.take(1) =~= seq![lines[0]]);
    while i < len
        invariant
            1 <= i <= len,
            len == log@.len(),
            lines == texts(log@),
            shown@ == joined(lines.take(i as int), "\n"@),
        decreases len - i,
    {
        shown.append("\n");
        shown.append(log[i].as_str());
        assert(lines.take(i + 1).drop_last() =~= lines.take(i as int));
        i = i + 1;
    }
    assert(lines.take(i as int) =~= lines);
    shown
}

/// The largest hash rate of the history, and at least one. The graph is scaled
/// to it.
pub fn history_scale(history: &VecDeque<u64>) -> (scale: u64)
    ensures
        scale == scale_of(history@),
        scale >= 1,
{
    let mut scale: u64 = 1;
    let mut i: usize = 0;
    assert(history@.take(0) =~= Seq::<u64>::empty());
    while i < history.len()
        invariant
            i <= history@.len(),
            scale == scale_of(history@.take(i as int)),
            scale >= 1,
        decreases history@.len() - i,
    {
        assert(history@.take(i + 1).drop_last() =~= history@.take(i as int));
        if history[i] > scale {
            scale = history[i];
        }
        i = i + 1;
    }
    assert(history@.take(i as int) =~= history@);
    scale
}

/// The hash rate that a bar of the graph shows.
pub fn history_bar(history: &VecDeque<u64>, index: usize) -> (value: u64)
    ensures
        value == bar_of(history@, index as int),
{
    if index < history.len() {
        history[index]
    } else {
        0
    }
}

/// The tab that is active after some were pressed, in that order.
pub fn active_tab(active: Tab, pressed: &[Tab]) -> (tab: Tab)
    ensures
        tab == tab_after(active, pressed@),
{
    if pressed.len() == 0 {
        active
    } else {
        pressed[pressed.len() - 1]
    }
}

/// Whether what belongs to `tab` is shown or marked while `active` is active.
pub fn tab_is_active(tab: Tab, active: Tab) -> (shown: bool)
    ensures
        shown == (tab == active),
{
    tab == active
}

/// The frame of the pickaxe animation that follows `index`.
pub fn next_pickaxe_frame(index: usize) -> (next: usize)
    requires
        index < usize::MAX,
    ensures
        next == (index + 1) % 11,
{
    (index + 1) % PICKAXE_FRAME_COUNT
}

/// No bar of the graph is higher than its scale, and where the scale is above
/// one some bar reaches it.
pub proof fn law_bars_fit_the_scale(history: Seq<u64>)
    ensures
        forall|i: int| #![trigger bar_of(history, i)] bar_of(history, i) <= scale_of(history),
        scale_of(history) > 1 ==> exists|i: int|
            0 <= i < history.len() && #[trigger] bar_of(history, i) == scale_of(history),
    decreases history.len(),
{
    if history.len() > 0 {
        let shorter = history.drop_last();
        let last = history.len() - 1;
        law_bars_fit_the_scale(shorter);
        assert forall|i: int| #![trigger bar_of(history, i)] bar_of(history, i) <= scale_of(
            history,
        ) by {
            if 0 <= i < last {
                assert(bar_of(shorter, i) == bar_of(history, i));
            }
        }
        if scale_of(history) > 1 {
            if history.last() > scale_of(shorter) {
                assert(bar_of(history, last) == scale_of(history));
            } else {
                let i = choose|i: int|
                    0 <= i < shorter.len() && #[trigger] bar_of(shorter, i) == scale_of(shorter);
                assert(bar_of(history, i) == scale_of(history));
            }
        }
    }
}

/// The dashboard page shows the numbers of the status: without its commas, the
/// count and the rate read back as those of the status, and so do the accepted
/// shares. The rate ends in its unit.
pub proof fn law_the_dashboard_shows_the_numbers(
    status: &PoolStatus,
    difficulty_text: &str,
    hashes: (String, Option<Tone>),
    hashrate: (String, Option<Tone>),
    shares: (String, Option<Tone>),
)
    requires
        call_ensures(dash_field_text, (DashField::Hashes, status, difficulty_text), hashes),
        call_ensures(dash_field_text, (DashField::Hashrate, status, difficulty_text), hashrate),
        call_ensures(dash_field_text, (DashField::Shares, status, difficulty_text), shares),
    ensures
        decimal_value(without(hashes.0@, ',')) == status.hashes,
        ({
            let n = hashrate.0@.len() - 2;
            &&& n > 0
            &&& hashrate.0@[n] == '/' && hashrate.0@[n + 1] == 's'
            &&& decimal_value(without(hashrate.0@.take(n), ',')) == status.hashrate
        }),
        decimal_value(shares.0@) == status.shares_accepted,
        hashes.1 is None && hashrate.1 is None && shares.1 is None,
{
    reveal_strlit("/s");
    law_commas_only_group(status.hashes as nat);
    law_decimal_reads_back(status.hashes as nat);
    law_commas_only_group(status.hashrate as nat);
    law_decimal_reads_back(status.hashrate as nat);
    law_decimal_reads_back(status.shares_accepted as nat);
    law_decimal_digits(status.hashrate as nat);
    lemma_grouped_start(decimal(status.hashrate as nat));
    let n = hashrate.0@.len() - 2;
    assert(hashrate.0@.take(n) =~= grouped(decimal(status.hashrate as nat)));
}

/// The dashboard page shows in words and in its tone whether the pool is
/// connected.
pub proof fn law_the_dashboard_shows_the_connection(
    status: &PoolStatus,
    difficulty_text: &str,
    shown: (String, Option<Tone>),
)
    requires
        call_ensures(dash_field_text, (DashField::Status, status, difficulty_text), shown),
    ensures
        status.connected ==> shown.0@ == "MINING"@ && shown.1 == Some(Tone::Good),
        !status.connected ==> shown.0@ == "OFFLINE"@ && shown.1 == Some(Tone::Bad),
{
}

/// The difficulty is shown exactly where it is a number above zero: its sign is
/// clear, it is not zero, and it is a number at all. Elsewhere stands a dash.
pub proof fn law_the_dashboard_shows_positive_difficulties(
    status: &PoolStatus,
    difficulty_text: &str,
    shown: (String, Option<Tone>),
)
    requires
        call_ensures(dash_field_text, (DashField::Difficulty, status, difficulty_text), shown),
    ensures
        ({
            let bits = status.difficulty;
            let no_number = (bits >> 52) & 0x7FF == 0x7FF && bits << 12 != 0;
            if bits >> 63 == 0 && bits != 0 && !no_number {
                shown.0@ == difficulty_text@
            } else {
                shown.0@ == "-"@
            }
        }),
        shown.1 is None,
{
    let bits = status.difficulty;
    assert((bits >> 63 == 0) == (bits < 0x8000_0000_0000_0000)) by (bit_vector);
    assert(((bits >> 52) & 0x7FF == 0x7FF && bits << 12 != 0) == (bits > 0xFFF0_0000_0000_0000
        || 0x7FF0_0000_0000_0000 < bits && bits < 0x8000_0000_0000_0000)) by (bit_vector);
}

/// The pool page shows the pool and the job by their names, or a dash where there
/// is none, and the accepted and the rejected shares as numbers.
pub proof fn law_the_pool_page_shows_the_status(
    status: &PoolStatus,
    addr: (String, Option<Tone>),
    job: (String, Option<Tone>),
    accepted: (String, Option<Tone>),
    rejected: (String, Option<Tone>),
)
    requires
        call_ensures(pool_field_text, (PoolField::Addr, status), addr),
        call_ensures(pool_field_text, (PoolField::Job, status), job),
        call_ensures(pool_field_text, (PoolField::Accepted, status), accepted),
        call_ensures(pool_field_text, (PoolField::Rejected, status), rejected),
    ensures
        status.pool_addr@.len() > 0 ==> addr.0@ == status.pool_addr@,
        status.pool_addr@.len() == 0 ==> addr.0@ == "-"@,
        status.job_id@.len() > 0 ==> job.0@ == status.job_id@,
        status.job_id@.len() == 0 ==> job.0@ == "-"@,
        decimal_value(accepted.0@) == status.shares_accepted,
        decimal_value(rejected.0@) == status.shares_rejected,
        addr.1 is None && job.1 is None && accepted.1 is None && rejected.1 is None,
{
    law_decimal_reads_back(status.shares_accepted as nat);
    law_decimal_reads_back(status.shares_rejected as nat);
}

/// The pool page shows in words and in its tone whether the pool is connected.
pub proof fn law_the_pool_page_shows_the_connection(
    status: &PoolStatus,
    shown: (String, Option<Tone>),
)
    requires
        call_ensures(pool_field_text, (PoolField::Conn, status), shown),
    ensures
        status.connected ==> shown.0@ == "CONNECTED"@ && shown.1 == Some(Tone::Good),
        !status.connected ==> shown.0@ == "DISCONNECTED"@ && shown.1 == Some(Tone::Bad),
{
}

/// The log page shows every line, with a line break between each two: the lines of
/// two parts of a log are shown as those of the first, a line break and those of
/// the second, and a single line as it is.
pub proof fn law_the_log_page_shows_every_line(
    first: Seq<Seq<char>>,
    second: Seq<Seq<char>>,
    line: Seq<char>,
)
    ensures
        log_text_of(Seq::empty()) == "Waiting for pool connection..."@,
        log_text_of(seq![line]) == line,
        first.len() > 0 && second.len() > 0 ==> log_text_of(first + second) == log_text_of(
            first,
        ) + "\n"@ + log_text_of(second),
{
    law_lines_are_joined(first, second, line, "\n"@);
}

/// The log page is that of the log's lines, in their order.
pub proof fn law_the_log_page_shows_the_log(log: &VecDeque<String>, shown: String)
    requires
        call_ensures(log_text, (log,), shown),
    ensures
        log@.len() == 0 ==> shown@ == "Waiting for pool connection..."@,
        log@.len() == 1 ==> shown@ == log@[0]@,
        log@.len() > 1 ==> shown@ == log@[0]@ + "\n"@ + log_text_of(texts(log@).drop_first()),
{
    let lines = texts(log@);
    if log@.len() == 1 {
        assert(lines =~= seq![log@[0]@]);
        law_the_log_page_shows_every_line(lines, lines, log@[0]@);
    } else if log@.len() > 1 {
        let first = seq![log@[0]@];
        let rest = lines.drop_first();
        assert(lines =~= first + rest);
        law_the_log_page_shows_every_line(first, rest, log@[0]@);
    }
}

/// The scale is the largest of the hash rates, wherever that is above one, and is
/// otherwise one.
pub proof fn law_the_scale_is_the_largest_rate(history: &VecDeque<u64>, scale: u64)
    requires
        call_ensures(history_scale, (history,), scale),
    ensures
        scale >= 1,
        forall|i: int| 0 <= i < history@.len() ==> #[trigger] history@[i] <= scale,
        scale > 1 ==> exists|i: int| 0 <= i < history@.len() && #[trigger] history@[i] == scale,
{
    law_bars_fit_the_scale(history@);
    assert forall|i: int| 0 <= i < history@.len() implies #[trigger] history@[i] <= scale by {
        assert(bar_of(history@, i) == history@[i]);
    }
    if scale > 1 {
        let i = choose|i: int|
            0 <= i < history@.len() && #[trigger] bar_of(history@, i) == scale_of(history@);
        assert(history@[i] == scale);
    }
}

/// Each bar shows the hash rate at its index, and nothing where there is none.
pub proof fn law_bars_show_their_rates(history: &VecDeque<u64>, index: usize, value: u64)
    requires
        call_ensures(history_bar, (history, index), value),
    ensures
        index < history@.len() ==> value == history@[index as int],
        index >= history@.len() ==> value == 0,
{
}

/// The tab that was pressed last is active. It makes no difference whether tabs
/// were pressed in one go or in two, and without any the active one stays.
pub proof fn law_the_last_pressed_tab_is_active(
    active: Tab,
    first: Seq<Tab>,
    second: Seq<Tab>,
    tab: Tab,
)
    ensures
        tab_after(active, Seq::empty()) == active,
        tab_after(active, first.push(tab)) == tab,
        tab_after(tab_after(active, first), second) == tab_after(active, first + second),
{
    if second.len() == 0 {
        assert(first + second =~= first);
    }
}

/// What is active after some tabs were pressed is the last of them.
pub proof fn law_pressing_activates(active: Tab, pressed: &[Tab], tab: Tab)
    requires
        call_ensures(active_tab, (active, pressed), tab),
    ensures
        pressed@.len() == 0 ==> tab == active,
        pressed@.len() > 0 ==> tab == pressed@[pressed@.len() - 1],
{
}

/// Exactly what belongs to the active tab is shown.
pub proof fn law_one_tab_is_shown(tab: Tab, active: Tab, shown: bool)
    requires
        call_ensures(tab_is_active, (tab, active), shown),
    ensures
        shown <==> tab == active,
{
}

/// Each frame of the animation is followed by the next, and the last of the eleven
/// by the first.
pub proof fn law_frames_go_round(index: usize, next: usize)
    requires
        call_ensures(next_pickaxe_frame, (index,), next),
        index < 11,
    ensures
        next < 11,
        index < 10 ==> next == index + 1,
        index == 10 ==> next == 0,
{
}

} // verus!
