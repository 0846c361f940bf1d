//! One connection to a pool: subscribing, authorizing, and then mining until
//! the connection ends.

use crate::events::{event_views, MinerEvent, MinerEventView};
use crate::hexcode::{decode_hex_or_empty, decoded_or_empty, law_encode_undoes_decode};
use crate::json::{compact_json, member_text, parse_json, parsed_json, Json, JsonView};
use crate::miner::WORKER_NAME;
use crate::protocol::{
    handle_pool_message, has_params, is_announced, is_parameter, law_notifications_announce_jobs,
    message_events, state_after, PoolState, PoolStateView, DIFFICULTY_ONE_BITS,
};
use crate::text::{
    decimal, decimal_text, decimal_value, law_decimal_digits, law_decimal_reads_back,
};
use vstd::prelude::*;

verus! {

/// The size of the second extra nonce where the pool gives none.
pub const DEFAULT_EXTRANONCE2_SIZE: usize = 4;

/// How far a connection has come.
#[derive(Clone, Copy, Debug, PartialEq, Eq, Structural)]
pub enum Phase {
    /// The pool has not yet answered the subscription.
    Subscribing,
    /// The pool has answered, and the worker runs.
    Mining,
    /// The connection has ended.
    Closed,
}

/// Something to be done for a connection.
#[derive(Debug)]
pub enum SessionAction {
    /// Send a line to the pool.
    Send(String),
    /// Tell the dashboard.
    Emit(MinerEvent),
    /// Start the mining worker.
    StartMining,
}

/// What a [`SessionAction`] holds.
pub enum SessionActionView {
    Send(Seq<char>),
    Emit(MinerEventView),
    StartMining,
}

impl View for SessionAction {
    type V = SessionActionView;

    open spec fn view(&self) -> SessionActionView {
        match self {
            SessionAction::Send(line) => SessionActionView::Send(line@),
            SessionAction::Emit(event) => SessionActionView::Emit(event@),
            SessionAction::StartMining => SessionActionView::StartMining,
        }
    }
}

/// What several actions hold.
pub open spec fn action_views(actions: Seq<SessionAction>) -> Seq<SessionActionView> {
    Seq::new(actions.len(), |i: int| actions[i]@)
}

/// The actions that pass events on to the dashboard.
pub open spec fn emitted(events: Seq<MinerEventView>) -> Seq<SessionActionView> {
    Seq::new(events.len(), |i: int| SessionActionView::Emit(events[i]))
}

/// A connection to a pool.
#[derive(Debug)]
pub struct Session {
    pub phase: Phase,
    pub label: String,
    pub host: String,
    pub port: u16,
    pub wallet: String,
    pub pool: PoolState,
}

/// What a [`Session`] holds.
#[verifier::ext_equal]
pub struct SessionView {
    pub phase: Phase,
    pub label: Seq<char>,
    pub host: Seq<char>,
    pub port: u16,
    pub wallet: Seq<char>,
    pub pool: PoolStateView,
}

impl View for Session {
    type V = SessionView;

    open spec fn view(&self) -> SessionView {
        SessionView {
            phase: self.phase,
            label: self.label@,
            host: self.host@,
            port: self.port,
            wallet: self.wallet@,
            pool: self.pool@,
        }
    }
}

/// The line that subscribes to a pool's work.
pub open spec fn subscription_line() -> Seq<char> {
    "{\"id\":1,\"method\":\"mining.subscribe\",\"params\":[\"rust-miner/0.1\"]}"@
}

/// The line that authorizes the worker of a wallet.
pub open spec fn authorization_line(wallet: Seq<char>) -> Seq<char> {
    "{\"id\":2,\"method\":\"mining.authorize\",\"params\":[\""@ + wallet + "."@ + WORKER_NAME@
        + "\",\"x\"]}"@
}

/// How the dashboard names a pool.
pub open spec fn pool_name(label: Seq<char>, host: Seq<char>, port: u16) -> Seq<char> {
    label + " ("@ + host + ":"@ + decimal(port as nat) + ")"@
}

/// Whether a message answers the subscription.
pub open spec fn answers_subscription(message: JsonView) -> bool {
    match message.member("id"@) {
        Some(id) => id.unsigned() == Some(1u64),
        None => false,
    }
}

/// The result of a reply, or null where it has none.
pub open spec fn result_of(message: JsonView) -> JsonView {
    match message.member("result"@) {
        Some(result) => result,
        None => JsonView::Null,
    }
}

/// The size of the second extra nonce that a reply gives.
pub open spec fn extranonce2_size_of(message: JsonView) -> usize {
    match result_of(message).element(2).unsigned() {
        Some(size) => size as usize,
        None => 4,
    }
}

impl SessionView {
    /// The session before the pool has answered.
    pub open spec fn fresh(
        label: Seq<char>,
        host: Seq<char>,
        port: u16,
        wallet: Seq<char>,
    ) -> SessionView {
        SessionView {
            phase: Phase::Subscribing,
            label,
            host,
            port,
            wallet,
            pool: PoolStateView {
                job: None,
                difficulty: DIFFICULTY_ONE_BITS,
                extranonce1: Seq::empty(),
                extranonce2_size: 4,
            },
        }
    }

    /// The session after the pool has answered the subscription.
    pub open spec fn subscribed(self, message: JsonView) -> SessionView {
        SessionView {
            phase: Phase::Mining,
            pool: PoolStateView {
                extranonce1: decoded_or_empty(result_of(message).element(1).text_or_empty()),
                extranonce2_size: extranonce2_size_of(message),
                ..self.pool
            },
            ..self
        }
    }

    /// What is done when the pool has answered the subscription.
    pub open spec fn subscribed_actions(self) -> Seq<SessionActionView> {
        seq![
            SessionActionView::Send(authorization_line(self.wallet)),
            SessionActionView::Emit(
                MinerEventView::Connected(pool_name(self.label, self.host, self.port)),
            ),
            SessionActionView::StartMining,
        ]
    }

    /// The session after a line that holds `message`, or no JSON at all.
    pub open spec fn after_message(self, message: Option<JsonView>) -> SessionView {
        match (self.phase, message) {
            (Phase::Subscribing, Some(m)) => if answers_subscription(m) {
                self.subscribed(m)
            } else {
                self
            },
            (Phase::Mining, Some(m)) => SessionView { pool: state_after(self.pool, m), ..self },
            _ => self,
        }
    }

    /// What is done about such a line.
    pub open spec fn message_actions(self, message: Option<JsonView>) -> Seq<SessionActionView> {
        match (self.phase, message) {
            (Phase::Subscribing, Some(m)) => if answers_subscription(m) {
                self.subscribed_actions()
            } else {
                Seq::empty()
            },
            (Phase::Mining, Some(m)) => emitted(message_events(m, member_text(m, "error"@))),
            _ => Seq::empty(),
        }
    }

    /// The session after the connection has ended.
    pub open spec fn ended(self) -> SessionView {
        SessionView { phase: Phase::Closed, ..self }
    }
}

/// The actions that pass `events` on to the dashboard.
fn emit_all(events: Vec<MinerEvent>) -> (actions: Vec<SessionAction>)
    ensures
        action_views(actions@) == emitted(event_views(events@)),
{
    let mut actions: Vec<SessionAction> = Vec::new();
    for event in iter: events
        invariant
            iter.seq() == events@,
            action_views(actions@) == emitted(event_views(events@.take(iter.index() as int))),
    {
        let ghost n = iter.index() as int;
        let ghost before = actions@;
        actions.push(SessionAction::Emit(event));
        assert(event == events@[n]);
        assert(event_views(events@.take(n + 1)) =~= event_views(events@.take(n)).push(event@));
        assert(action_views(actions@) =~= action_views(before).push(
            SessionActionView::Emit(event@),
        ));
        assert(action_views(actions@) =~= emitted(event_views(events@.take(n + 1))));
    }
    assert(events@.take(events@.len() as int) =~= events@);
    actions
}

/// The line that authorizes the worker of `wallet`.
pub fn authorization(wallet: &str) -> (line: String)
    ensures
        line@ == authorization_line(wallet@),
{
    let mut line: String = "{\"id\":2,\"method\":\"mining.authorize\",\"params\":[\"".to_owned();
    line.append(wallet);
    line.append(".");
    line.append(WORKER_NAME);
    line.append("\",\"x\"]}");
    line
}

/// How the dashboard names a pool.
pub fn pool_title(label: &str, host: &str, port: u16) -> (title: String)
    ensures
        title@ == pool_name(label@, host@, port),
{
    let mut title: String = label.to_owned();
    title.append(" (");
    title.append(host);
    title.append(":");
    title.append(decimal_text(port as u64).as_str());
    title.append(")");
    title
}

/// What the dashboard is told when no connection could be made.
pub fn connection_failed(error: &str) -> (events: Vec<MinerEvent>)
    ensures
        event_views(events@) == seq![
            MinerEventView::Log("pool connect failed: "@ + error@),
            MinerEventView::Disconnected,
        ],
{
    let mut message: String = "pool connect failed: ".to_owned();
    message.append(error);
    let mut events: Vec<MinerEvent> = Vec::new();
    events.push(MinerEvent::Log(message));
    events.push(MinerEvent::Disconnected);
    assert(event_views(events@) =~= seq![
        MinerEventView::Log("pool connect failed: "@ + error@),
        MinerEventView::Disconnected,
    ]);
    events
}

impl Session {
    /// Starts a session on a fresh connection by subscribing.
    pub fn start(label: String, host: String, port: u16, wallet: String) -> (started: (
        Session,
        Vec<SessionAction>,
    ))
        ensures
            started.0@ == SessionView::fresh(label@, host@, port, wallet@),
            action_views(started.1@) == seq![SessionActionView::Send(subscription_line())],
    {
        let session: Session = Session {
            phase: Phase::Subscribing,
            label,
            host,
            port,
            wallet,
            pool: PoolState {
                job: None,
                difficulty: DIFFICULTY_ONE_BITS,
                extranonce1: Vec::new(),
                extranonce2_size: DEFAULT_EXTRANONCE2_SIZE,
            },
        };
        let mut actions: Vec<SessionAction> = Vec::new();
        actions.push(
            SessionAction::Send(
                "{\"id\":1,\"method\":\"mining.subscribe\",\"params\":[\"rust-miner/0.1\"]}".to_owned(),
            ),
        );
        assert(session@ =~= SessionView::fresh(label@, host@, port, wallet@));
        assert(action_views(actions@) =~= seq![SessionActionView::Send(subscription_line())]);
        (session, actions)
    }

    /// Takes a message that came while subscribing. The answer to the
    /// subscription gives the extra nonce and starts the mining; anything else
    /// is ignored.
    pub fn receive_subscription(&mut self, message: &Json) -> (actions: Vec<SessionAction>)
        requires
            old(self).phase == Phase::Subscribing,
        ensures
            final(self)@ == old(self)@.after_message(Some(message@)),
            action_views(actions@) == old(self)@.message_actions(Some(message@)),
    {
        let answers: bool = match message.member("id") {
            Some(id) => match id.unsigned() {
                Some(number) => number == 1,
                None => false,
            },
            None => false,
        };
        let mut actions: Vec<SessionAction> = Vec::new();
        if answers {
            let nothing: Json = Json::Null;
            let result: &Json = match message.member("result") {
                Some(result) => result,
                None => &nothing,
            };
            self.pool.extranonce1 = decode_hex_or_empty(result.element_text(1));
            let size: Option<u64> = match result.element(2) {
                Some(size) => size.unsigned(),
                None => None,
            };
            self.pool.extranonce2_size = match size {
                Some(size) => size as usize,
                None => DEFAULT_EXTRANONCE2_SIZE,
            };
            self.phase = Phase::Mining;
            actions.push(SessionAction::Send(authorization(self.wallet.as_str())));
            actions.push(
                SessionAction::Emit(
                    MinerEvent::Connected(
                        pool_title(self.label.as_str(), self.host.as_str(), self.port),
                    ),
                ),
            );
            actions.push(SessionAction::StartMining);
        }
        assert(self@ =~= old(self)@.after_message(Some(message@)));
        assert(action_views(actions@) =~= old(self)@.message_actions(Some(message@)));
        actions
    }

    /// Takes a line that came from the pool.
    pub fn receive_line(&mut self, line: &str) -> (actions: Vec<SessionAction>)
        ensures
            final(self)@ == old(self)@.after_message(parsed_json(line@)),
            action_views(actions@) == old(self)@.message_actions(parsed_json(line@)),
    {
        match self.phase {
            Phase::Subscribing => match parse_json(line) {
                Some(message) => self.receive_subscription(&message),
                None => {
                    let actions: Vec<SessionAction> = Vec::new();
                    assert(action_views(actions@) =~= Seq::empty());
                    actions
                },
            },
            Phase::Mining => {
                let events: Vec<MinerEvent> = handle_pool_message(line, &mut self.pool);
                let actions: Vec<SessionAction> = emit_all(events);
                assert(action_views(actions@) =~= old(self)@.message_actions(parsed_json(line@)));
                actions
            },
            Phase::Closed => {
                let actions: Vec<SessionAction> = Vec::new();
                assert(action_views(actions@) =~= Seq::empty());
                actions
            },
        }
    }

    /// Takes the end of the connection, whether orderly or by an error.
    pub fn receive_end(&mut self) -> (actions: Vec<SessionAction>)
        ensures
            final(self)@ == old(self)@.ended(),
            action_views(actions@) == seq![SessionActionView::Emit(MinerEventView::Disconnected)],
    {
        self.phase = Phase::Closed;
        let mut actions: Vec<SessionAction> = Vec::new();
        actions.push(SessionAction::Emit(MinerEvent::Disconnected));
        assert(self@ =~= old(self)@.ended());
        assert(action_views(actions@) =~= seq![
            SessionActionView::Emit(MinerEventView::Disconnected),
        ]);
        actions
    }
}

/// A session keeps mining for the wallet, and at the pool, that it was started
/// for.
pub proof fn law_identity_is_kept(session: SessionView, message: Option<JsonView>)
    ensures
        session.after_message(message).label == session.label,
        session.after_message(message).host == session.host,
        session.after_message(message).port == session.port,
        session.after_message(message).wallet == session.wallet,
        session.ended().wallet == session.wallet,
{
}

/// Once the mining has started, the extra nonces stay as the pool gave them and
/// the session goes on until the connection ends.
pub proof fn law_mining_goes_on(session: SessionView, message: Option<JsonView>)
    requires
        session.phase == Phase::Mining,
    ensures
        session.after_message(message).phase == Phase::Mining,
        session.after_message(message).pool.extranonce1 == session.pool.extranonce1,
        session.after_message(message).pool.extranonce2_size == session.pool.extranonce2_size,
{
}

/// The mining worker is started only by the answer to the subscription, and the
/// session is then mining, so it is started at most once.
pub proof fn law_mining_starts_once(session: SessionView, message: Option<JsonView>)
    ensures
        session.message_actions(message).contains(SessionActionView::StartMining) <==> {
            &&& session.phase == Phase::Subscribing
            &&& message matches Some(m)
            &&& answers_subscription(m)
        },
        session.message_actions(message).contains(SessionActionView::StartMining)
            ==> session.after_message(message).phase == Phase::Mining,
{
    let actions = session.message_actions(message);
    if session.phase == Phase::Subscribing && message is Some && answers_subscription(message->0) {
        assert(actions[2] == SessionActionView::StartMining);
    }
}

/// After the connection has ended, nothing that arrives has any effect.
pub proof fn law_closed_is_final(session: SessionView, message: Option<JsonView>)
    requires
        session.phase == Phase::Closed,
    ensures
        session.after_message(message) == session,
        session.message_actions(message).len() == 0,
{
}

/// Whether a message has the number of the subscription.
pub open spec fn has_first_id(message: JsonView) -> bool {
    &&& message.member("id"@) is Some
    &&& message.member("id"@)->0 is Number
    &&& message.member("id"@)->0->Number_0.unsigned == Some(1u64)
}

/// The answer to the subscription gives the extra nonces. The first is what the
/// second element of the result stands for. The size of the other is the number
/// that is its third element, whichever it is, and four only where there is none.
/// Nothing else that is known of the pool changes, and the session is then mining.
pub proof fn law_the_answer_gives_the_extra_nonces(session: SessionView, message: JsonView)
    requires
        session.phase == Phase::Subscribing,
        has_first_id(message),
    ensures
        ({
            let after = session.after_message(Some(message));
            let result = message.member("result"@);
            let items = result->0->Array_0;
            let given = result is Some && result->0 is Array;
            &&& after.phase == Phase::Mining
            &&& given ==> is_parameter(after.pool.extranonce1, JsonView::Array(items), 1)
            &&& !given ==> after.pool.extranonce1.len() == 0
            &&& if given && items.len() > 2 && items[2] is Number
                && items[2]->Number_0.unsigned is Some {
                let size = items[2]->Number_0.unsigned->0;
                size <= usize::MAX ==> after.pool.extranonce2_size == size
            } else {
                after.pool.extranonce2_size == 4
            }
            &&& after.pool.job == session.pool.job
            &&& after.pool.difficulty == session.pool.difficulty
            &&& (after.label, after.host, after.port, after.wallet) == (
                session.label,
                session.host,
                session.port,
                session.wallet,
            )
        }),
{
    law_encode_undoes_decode(result_of(message).element(1).text_or_empty());
}

/// When the subscription is answered, the worker is authorized, the dashboard is
/// told the pool and the mining starts, in that order and once each.
pub proof fn law_the_answer_starts_the_mining(session: SessionView, message: JsonView)
    requires
        session.phase == Phase::Subscribing,
        has_first_id(message),
    ensures
        ({
            let actions = session.message_actions(Some(message));
            &&& actions.len() == 3
            &&& actions[0] == SessionActionView::Send(authorization_line(session.wallet))
            &&& actions[1] == SessionActionView::Emit(
                MinerEventView::Connected(pool_name(session.label, session.host, session.port)),
            )
            &&& actions[2] == SessionActionView::StartMining
        }),
{
}

/// While the subscription is not answered, nothing else that arrives changes
/// anything or has anything done: no message with another number or none, and no
/// line that is no JSON.
pub proof fn law_only_the_answer_counts(session: SessionView, message: Option<JsonView>)
    requires
        session.phase == Phase::Subscribing,
        message is Some ==> !has_first_id(message->0),
    ensures
        session.after_message(message) == session,
        session.message_actions(message).len() == 0,
{
}

/// While mining, every message is applied to what is known of the pool, and each
/// event that it gives is passed on, in the order of the events. The text of an
/// error is its compact JSON. A line that is no JSON does nothing.
pub proof fn law_messages_are_passed_on(session: SessionView, message: JsonView, i: int)
    requires
        session.phase == Phase::Mining,
    ensures
        ({
            let error_text = match message.member("error"@) {
                Some(error) => compact_json(error),
                None => Seq::empty(),
            };
            let events = message_events(message, error_text);
            let actions = session.message_actions(Some(message));
            &&& session.after_message(Some(message)).pool == state_after(session.pool, message)
            &&& actions.len() == events.len()
            &&& 0 <= i < events.len() ==> actions[i] == SessionActionView::Emit(events[i])
            &&& session.after_message(None) == session
            &&& session.message_actions(None).len() == 0
        }),
{
}

/// A notification that arrives while mining is the job from then on, each part
/// read from its own parameter.
pub proof fn law_notified_jobs_are_mined(
    session: SessionView,
    message: JsonView,
    params: JsonView,
)
    requires
        session.phase == Phase::Mining,
        message.member("method"@) == Some(JsonView::Text("mining.notify"@)),
        has_params(message, params),
    ensures
        ({
            let after = session.after_message(Some(message));
            &&& after.pool.job matches Some(job)
            &&& is_announced(job, params)
            &&& session.message_actions(Some(message)) =~= seq![
                SessionActionView::Emit(MinerEventView::NewJob(job.job_id)),
            ]
        }),
{
    law_notifications_announce_jobs(
        session.pool,
        message,
        params,
        member_text(message, "error"@),
    );
}

/// The end of a connection, whatever came before it, closes the session and keeps
/// what is known of the pool.
pub proof fn law_the_end_closes(session: SessionView)
    ensures
        session.ended().phase == Phase::Closed,
        session.ended().pool == session.pool,
{
}

/// A session starts with no job, with difficulty one, which is the
/// double-precision number with the exponent zero and no fraction, and with
/// nothing known of the extra nonces but the usual size.
pub proof fn law_sessions_start_with_nothing(
    label: Seq<char>,
    host: Seq<char>,
    port: u16,
    wallet: Seq<char>,
)
    ensures
        ({
            let session = SessionView::fresh(label, host, port, wallet);
            &&& session.phase == Phase::Subscribing
            &&& session.pool.job is None
            &&& session.pool.difficulty >> 52 == 1023
            &&& session.pool.difficulty << 12 == 0
            &&& session.pool.extranonce1.len() == 0
            &&& session.pool.extranonce2_size == 4
            &&& (session.label, session.host, session.port, session.wallet) == (
                label,
                host,
                port,
                wallet,
            )
        }),
{
    assert(DIFFICULTY_ONE_BITS == 0x3FF0_0000_0000_0000u64);
    assert(0x3FF0_0000_0000_0000u64 >> 52 == 1023 && 0x3FF0_0000_0000_0000u64 << 12 == 0)
        by (bit_vector);
}

/// The line that authorizes a worker names the wallet as it is, between quotes and
/// followed by the worker's name, whatever the wallet is.
pub proof fn law_authorizations_name_the_wallet(wallet: &str, line: String)
    requires
        call_ensures(authorization, (wallet,), line),
    ensures
        ({
            let before = "{\"id\":2,\"method\":\"mining.authorize\",\"params\":[\""@;
            let after = ".rustminer1\",\"x\"]}"@;
            let n = before.len() as int;
            let w = wallet@.len() as int;
            &&& line@.len() == n + w + after.len()
            &&& line@.take(n) == before
            &&& line@.subrange(n, n + w) == wallet@
            &&& line@.skip(n + w) == after
        }),
{
    reveal_strlit(".");
    reveal_strlit("rustminer1");
    reveal_strlit("\",\"x\"]}");
    reveal_strlit(".rustminer1\",\"x\"]}");
    let before = "{\"id\":2,\"method\":\"mining.authorize\",\"params\":[\""@;
    let after = ".rustminer1\",\"x\"]}"@;
    assert("."@ + "rustminer1"@ + "\",\"x\"]}"@ =~= after);
    assert(line@ =~= before + wallet@ + after);
    assert(line@.take(before.len() as int) =~= before);
    assert(line@.subrange(before.len() as int, (before.len() + wallet@.len()) as int)
        =~= wallet@);
    assert(line@.skip((before.len() + wallet@.len()) as int) =~= after);
}

/// The name of a pool is its label and, in brackets, its host and the decimal
/// digits of its port.
pub proof fn law_pools_are_named(label: &str, host: &str, port: u16, title: String)
    requires
        call_ensures(pool_title, (label, host, port), title),
    ensures
        ({
            let a = label@.len() as int;
            let b = host@.len() as int;
            let n = title@.len() as int;
            &&& n > a + b + 4
            &&& title@.take(a) == label@
            &&& title@[a] == ' ' && title@[a + 1] == '('
            &&& title@.subrange(a + 2, a + 2 + b) == host@
            &&& title@[a + 2 + b] == ':'
            &&& decimal_value(title@.subrange(a + 3 + b, n - 1)) == port
            &&& title@[n - 1] == ')'
        }),
{
    reveal_strlit(" (");
    reveal_strlit(":");
    reveal_strlit(")");
    let a = label@.len() as int;
    let b = host@.len() as int;
    let n = title@.len() as int;
    let digits = decimal(port as nat);
    law_decimal_reads_back(port as nat);
    law_decimal_digits(port as nat);
    assert(title@.take(a) =~= label@);
    assert(title@.subrange(a + 2, a + 2 + b) =~= host@);
    assert(title@.subrange(a + 3 + b, n - 1) =~= digits);
}

/// A connection that could not be made is logged with its reason, and then the
/// pool counts as disconnected.
pub proof fn law_failed_connections_are_told(error: &str, events: Vec<MinerEvent>)
    requires
        call_ensures(connection_failed, (error,), events),
    ensures
        ({
            let views = event_views(events@);
            let start = "pool connect failed: "@;
            &&& views.len() == 2
            &&& views[0] matches MinerEventView::Log(line)
            &&& line.len() == start.len() + error@.len()
            &&& line.take(start.len() as int) == start
            &&& line.skip(start.len() as int) == error@
            &&& views[1] == MinerEventView::Disconnected
        }),
{
    let views = event_views(events@);
    let start = "pool connect failed: "@;
    let line = start + error@;
    assert(views[0] == MinerEventView::Log(line));
    assert(line.take(start.len() as int) =~= start);
    assert(line.skip(start.len() as int) =~= error@);
}

/// A session subscribes first, by one line, and knows nothing of the pool yet.
pub proof fn law_sessions_subscribe_first(
    label: String,
    host: String,
    port: u16,
    wallet: String,
    started: (Session, Vec<SessionAction>),
)
    requires
        call_ensures(Session::start, (label, host, port, wallet), started),
    ensures
        started.0@.phase == Phase::Subscribing,
        started.0@.pool.job is None,
        (started.0@.label, started.0@.host, started.0@.port, started.0@.wallet) == (
            label@,
            host@,
            port,
            wallet@,
        ),
        action_views(started.1@).len() == 1,
        action_views(started.1@)[0] == SessionActionView::Send(
            "{\"id\":1,\"method\":\"mining.subscribe\",\"params\":[\"rust-miner/0.1\"]}"@,
        ),
{
}

/// After the line that answers the subscription, the extra nonces are those that
/// the pool gave there: the first stands for its second element, and the size of
/// the other is the number in its third, or four where there is none.
pub proof fn law_lines_give_the_extra_nonces(
    session: &mut Session,
    line: &str,
    actions: Vec<SessionAction>,
    message: JsonView,
    items: Seq<JsonView>,
)
    requires
        call_ensures(Session::receive_line, (session, line), actions),
        old(session)@.phase == Phase::Subscribing,
        parsed_json(line@) == Some(message),
        has_first_id(message),
        message.member("result"@) == Some(JsonView::Array(items)),
    ensures
        final(session)@.phase == Phase::Mining,
        is_parameter(final(session)@.pool.extranonce1, JsonView::Array(items), 1),
        if items.len() > 2 && items[2] is Number && items[2]->Number_0.unsigned is Some {
            let size = items[2]->Number_0.unsigned->0;
            size <= usize::MAX ==> final(session)@.pool.extranonce2_size == size
        } else {
            final(session)@.pool.extranonce2_size == 4
        },
        action_views(actions@).len() == 3,
        action_views(actions@)[2] == SessionActionView::StartMining,
{
    law_the_answer_gives_the_extra_nonces(old(session)@, message);
    law_the_answer_starts_the_mining(old(session)@, message);
}

/// A line that is no JSON has no effect, whatever the session waits for.
pub proof fn law_other_lines_do_nothing(
    session: &mut Session,
    line: &str,
    actions: Vec<SessionAction>,
)
    requires
        call_ensures(Session::receive_line, (session, line), actions),
        parsed_json(line@) is None,
    ensures
        final(session)@ == old(session)@,
        action_views(actions@).len() == 0,
{
}

/// The end of the connection closes the session, keeps what is known of the pool
/// and tells the dashboard, once.
pub proof fn law_the_end_is_told(session: &mut Session, actions: Vec<SessionAction>)
    requires
        call_ensures(Session::receive_end, (session,), actions),
    ensures
        final(session)@.phase == Phase::Closed,
        final(session)@.pool == old(session)@.pool,
        final(session)@.wallet == old(session)@.wallet,
        action_views(actions@).len() == 1,
        action_views(actions@)[0] == SessionActionView::Emit(MinerEventView::Disconnected),
{
}

} // verus!
