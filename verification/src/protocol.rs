//! The pool's side of the Stratum protocol: what its lines mean.

use crate::events::{event_views, MinerEvent, MinerEventView};
use crate::hexcode::{
    are_bytes_of, decode_hex, decode_hex_or_empty, decoded, decoded_or_empty, is_hex_text,
    law_encode_undoes_decode,
};
use crate::job::{contents, header_head_of, header_of, law_header_size, Job, JobView};
use crate::json::{
    law_parts_have_doubles, member_text, parse_json_with_member, parsed_json, Json, JsonView,
};
use crate::text::same_text;
use vstd::prelude::*;

verus! {

/// The bits of the double-precision number one, the difficulty before the pool
/// has set one.
pub const DIFFICULTY_ONE_BITS: u64 = 0x3FF0_0000_0000_0000;

/// What the pool has told the miner so far.
#[derive(Clone, Debug)]
pub struct PoolState {
    pub job: Option<Job>,
    /// The bits of the double-precision number that is the difficulty.
    pub difficulty: u64,
    pub extranonce1: Vec<u8>,
    pub extranonce2_size: usize,
}

/// What a [`PoolState`] holds.
#[verifier::ext_equal]
pub struct PoolStateView {
    pub job: Option<JobView>,
    pub difficulty: u64,
    pub extranonce1: Seq<u8>,
    pub extranonce2_size: usize,
}

impl View for PoolState {
    type V = PoolStateView;

    open spec fn view(&self) -> PoolStateView {
        PoolStateView {
            job: match self.job {
                Some(job) => Some(job@),
                None => None,
            },
            difficulty: self.difficulty,
            extranonce1: self.extranonce1@,
            extranonce2_size: self.extranonce2_size,
        }
    }
}

/// The hashes of a Merkle branch; elements that are no hexadecimal text are
/// left out, and an element that is no string counts as the empty text.
pub open spec fn branch_of(items: Seq<JsonView>) -> Seq<Seq<u8>>
    decreases items.len(),
{
    if items.len() == 0 {
        Seq::empty()
    } else {
        let rest = branch_of(items.drop_last());
        match decoded(items.last().text_or_empty()) {
            Some(hash) => rest.push(hash),
            None => rest,
        }
    }
}

/// The job that the parameters of a notification announce.
pub open spec fn job_of(params: JsonView) -> JobView {
    JobView {
        job_id: params.element(0).text_or_empty(),
        prevhash: decoded_or_empty(params.element(1).text_or_empty()),
        coinb1: decoded_or_empty(params.element(2).text_or_empty()),
        coinb2: decoded_or_empty(params.element(3).text_or_empty()),
        merkle_branch: match params.element(4) {
            JsonView::Array(items) => branch_of(items),
            _ => Seq::empty(),
        },
        version: decoded_or_empty(params.element(5).text_or_empty()),
        nbits: decoded_or_empty(params.element(6).text_or_empty()),
        ntime: decoded_or_empty(params.element(7).text_or_empty()),
    }
}

/// The method that a message calls, where it is a string.
pub open spec fn method_of(message: JsonView) -> Option<Seq<char>> {
    match message.member("method"@) {
        Some(method) => method.text(),
        None => None,
    }
}

/// The parameters of a message, or null where it has none.
pub open spec fn params_of(message: JsonView) -> JsonView {
    match message.member("params"@) {
        Some(params) => params,
        None => JsonView::Null,
    }
}

/// Whether a message sets the difficulty to a number.
pub open spec fn sets_difficulty(message: JsonView) -> bool {
    method_of(message) == Some("mining.set_difficulty"@) && params_of(message).element(0) is Number
}

/// The pool state after a message.
pub open spec fn state_after(state: PoolStateView, message: JsonView) -> PoolStateView {
    let params = params_of(message);
    if method_of(message) == Some("mining.notify"@) {
        PoolStateView { job: Some(job_of(params)), ..state }
    } else if method_of(message) == Some("mining.set_difficulty"@) {
        match params.element(0).double_bits() {
            Some(bits) => PoolStateView { difficulty: bits, ..state },
            None => state,
        }
    } else {
        state
    }
}

/// What the result of a reply says of a share.
pub open spec fn result_events(message: JsonView, error_text: Seq<char>) -> Seq<MinerEventView> {
    if message.member("result"@) == Some(JsonView::Bool(false)) {
        seq![
            MinerEventView::ShareRejected(
                if message.member("error"@) is Some {
                    error_text
                } else {
                    "rejected"@
                },
            ),
        ]
    } else {
        Seq::empty()
    }
}

/// What the error of a reply says of a share.
pub open spec fn error_events(message: JsonView, error_text: Seq<char>) -> Seq<MinerEventView> {
    match message.member("error"@) {
        Some(JsonView::Null) => if message.member("result"@) == Some(JsonView::Bool(true)) {
            seq![MinerEventView::ShareAccepted]
        } else {
            Seq::empty()
        },
        Some(_) => seq![MinerEventView::ShareRejected(error_text)],
        None => Seq::empty(),
    }
}

/// The events that a message gives. `error_text` is the text of its error.
pub open spec fn message_events(message: JsonView, error_text: Seq<char>) -> Seq<MinerEventView> {
    let params = params_of(message);
    match method_of(message) {
        Some(method) => if method == "mining.notify"@ {
            seq![MinerEventView::NewJob(params.element(0).text_or_empty())]
        } else if method == "mining.set_difficulty"@ {
            match params.element(0).double_bits() {
                Some(bits) => seq![MinerEventView::Difficulty(bits)],
                None => Seq::empty(),
            }
        } else {
            Seq::empty()
        },
        None => result_events(message, error_text) + error_events(message, error_text),
    }
}

/// Reads the hashes of a Merkle branch.
fn read_branch(items: &Vec<Json>) -> (branch: Vec<Vec<u8>>)
    ensures
        contents(branch@) == branch_of(Json::Array(*items)@->Array_0),
{
    let ghost whole = Json::Array(*items)@->Array_0;
    let mut branch: Vec<Vec<u8>> = Vec::new();
    let mut i: usize = 0;
    assert(contents(branch@) =~= branch_of(whole.take(0)));
    while i < items.len()
        invariant
            i <= items@.len(),
            whole == Json::Array(*items)@->Array_0,
            contents(branch@) == branch_of(whole.take(i as int)),
        decreases items@.len() - i,
    {
        proof {
            reveal_strlit("");
            assert(""@ =~= Seq::<char>::empty());
            assert(whole[i as int] == items@[i as int]@);
            assert(whole.take(i + 1).drop_last() =~= whole.take(i as int));
        }
        let text: &str = match items[i].text() {
            Some(text) => text,
            None => "",
        };
        let ghost before = branch@;
        match decode_hex(text) {
            Some(hash) => {
                branch.push(hash);
                assert(contents(branch@) =~= contents(before).push(hash@));
            },
            None => {},
        }
        i = i + 1;
    }
    assert(whole.take(i as int) =~= whole);
    branch
}

/// Reads the job that the parameters of a notification announce.
pub fn read_job(params: &Json) -> (job: Job)
    ensures
        job@ == job_of(params@),
{
    let merkle_branch: Vec<Vec<u8>> = match params.element(4) {
        Some(Json::Array(items)) => read_branch(items),
        _ => Vec::new(),
    };
    let job: Job = Job {
        job_id: params.element_text(0).to_owned(),
        prevhash: decode_hex_or_empty(params.element_text(1)),
        coinb1: decode_hex_or_empty(params.element_text(2)),
        coinb2: decode_hex_or_empty(params.element_text(3)),
        merkle_branch,
        version: decode_hex_or_empty(params.element_text(5)),
        nbits: decode_hex_or_empty(params.element_text(6)),
        ntime: decode_hex_or_empty(params.element_text(7)),
    };
    assert(job@ =~= job_of(params@));
    job
}

/// Reads what the result and the error of a reply say of a share.
fn reply_events(message: &Json, error_text: &str) -> (events: Vec<MinerEvent>)
    ensures
        event_views(events@) == result_events(message@, error_text@) + error_events(
            message@,
            error_text@,
        ),
{
    let mut events: Vec<MinerEvent> = Vec::new();
    let mut accepted: bool = false;
    match message.member("result") {
        Some(Json::Bool(true)) => {
            accepted = true;
        },
        Some(Json::Bool(false)) => {
            let reason: String = match message.member("error") {
                Some(_) => error_text.to_owned(),
                None => "rejected".to_owned(),
            };
            events.push(MinerEvent::ShareRejected(reason));
        },
        _ => {},
    }
    assert(event_views(events@) =~= result_events(message@, error_text@));
    let ghost before = events@;
    match message.member("error") {
        Some(Json::Null) => {
            if accepted {
                events.push(MinerEvent::ShareAccepted);
            }
        },
        Some(_) => {
            events.push(MinerEvent::ShareRejected(error_text.to_owned()));
        },
        None => {},
    }
    assert(event_views(events@) =~= event_views(before) + error_events(message@, error_text@));
    events
}

/// Applies a message of the pool to what is known of it. `error_text` is the
/// compact text of the message's error, where it has one.
///
/// A notification replaces the job and a new difficulty the old one. A reply
/// says whether a share was accepted: one that was refused may be reported
/// twice, by its result and by its error.
pub fn apply_message(
    state: &mut PoolState,
    message: &Json,
    error_text: &str,
) -> (events: Vec<MinerEvent>)
    ensures
        final(state)@ == state_after(old(state)@, message@),
        event_views(events@) == message_events(message@, error_text@),
{
    let method: Option<&str> = match message.member("method") {
        Some(method) => method.text(),
        None => None,
    };
    let mut events: Vec<MinerEvent> = Vec::new();
    match method {
        Some(method) => {
            let nothing: Json = Json::Null;
            let params: &Json = match message.member("params") {
                Some(params) => params,
                None => &nothing,
            };
            if same_text(method, "mining.notify") {
                let job: Job = read_job(params);
                events.push(MinerEvent::NewJob(job.job_id.clone()));
                state.job = Some(job);
            } else if same_text(method, "mining.set_difficulty") {
                let bits: Option<u64> = match params.element(0) {
                    Some(number) => number.double_bits(),
                    None => None,
                };
                match bits {
                    Some(bits) => {
                        state.difficulty = bits;
                        events.push(MinerEvent::Difficulty(bits));
                    },
                    None => {},
                }
            }
            assert(event_views(events@) =~= message_events(message@, error_text@));
        },
        None => {
            events = reply_events(message, error_text);
        },
    }
    assert(state@ =~= state_after(old(state)@, message@));
    events
}

/// Applies a line that came from the pool. A line that is no JSON is ignored, and
/// every number that the pool sets as the difficulty is taken.
pub fn handle_pool_message(line: &str, state: &mut PoolState) -> (events: Vec<MinerEvent>)
    ensures
        match parsed_json(line@) {
            Some(message) => {
                &&& final(state)@ == state_after(old(state)@, message)
                &&& event_views(events@) == message_events(
                    message,
                    member_text(message, "error"@),
                )
            },
            None => {
                &&& final(state)@ == old(state)@
                &&& events@.len() == 0
            },
        },
        parsed_json(line@) matches Some(message) ==> (sets_difficulty(message) ==> params_of(
            message,
        ).element(0).double_bits() == Some(final(state)@.difficulty)),
{
    match parse_json_with_member(line, "error") {
        Some((message, error_text)) => {
            proof {
                reveal_strlit("mining.notify");
                reveal_strlit("mining.set_difficulty");
                assert("mining.notify"@.len() != "mining.set_difficulty"@.len());
                law_parts_have_doubles(message@, "params"@, 0);
                law_parts_have_doubles(params_of(message@), "params"@, 0);
            }
            apply_message(state, &message, error_text.as_str())
        },
        None => Vec::new(),
    }
}

/// A reply never changes what is known of the pool.
pub proof fn law_replies_keep_the_state(state: PoolStateView, message: JsonView)
    requires
        method_of(message) is None,
    ensures
        state_after(state, message) == state,
{
}

/// A method that the miner does not know changes nothing and says nothing.
pub proof fn law_unknown_methods_are_ignored(
    state: PoolStateView,
    message: JsonView,
    error_text: Seq<char>,
)
    requires
        method_of(message) is Some,
        method_of(message) != Some("mining.notify"@),
        method_of(message) != Some("mining.set_difficulty"@),
    ensures
        state_after(state, message) == state,
        message_events(message, error_text).len() == 0,
{
}

/// No message changes the extra nonces.
pub proof fn law_messages_keep_the_extranonce(state: PoolStateView, message: JsonView)
    ensures
        state_after(state, message).extranonce1 == state.extranonce1,
        state_after(state, message).extranonce2_size == state.extranonce2_size,
{
}

/// A share counts as accepted exactly where a reply has the result true and a
/// null error.
pub proof fn law_acceptance(message: JsonView, error_text: Seq<char>)
    ensures
        message_events(message, error_text).contains(MinerEventView::ShareAccepted) <==> {
            &&& method_of(message) is None
            &&& message.member("result"@) == Some(JsonView::Bool(true))
            &&& message.member("error"@) == Some(JsonView::Null)
        },
{
    let events = message_events(message, error_text);
    if method_of(message) is None && message.member("result"@) == Some(JsonView::Bool(true))
        && message.member("error"@) == Some(JsonView::Null) {
        assert(events[0] == MinerEventView::ShareAccepted);
    }
}

/// Whether an event rejects a share.
pub open spec fn is_rejection(event: MinerEventView) -> bool {
    event is ShareRejected
}

/// A share counts as rejected exactly where a reply has the result false or an
/// error that is not null.
pub proof fn law_rejection(message: JsonView, error_text: Seq<char>)
    ensures
        (exists|i: int|
            0 <= i < message_events(message, error_text).len() && #[trigger] is_rejection(
                message_events(message, error_text)[i],
            )) <==> {
            &&& method_of(message) is None
            &&& {
                ||| message.member("result"@) == Some(JsonView::Bool(false))
                ||| message.member("error"@) is Some && message.member("error"@) != Some(
                    JsonView::Null,
                )
            }
        },
{
    let events = message_events(message, error_text);
    if method_of(message) is None {
        if message.member("result"@) == Some(JsonView::Bool(false)) {
            assert(is_rejection(events[0]));
        } else if message.member("error"@) is Some && message.member("error"@) != Some(
            JsonView::Null,
        ) {
            assert(is_rejection(events[0]));
        }
    }
}

/// No message both accepts and rejects a share.
pub proof fn law_never_both(message: JsonView, error_text: Seq<char>, i: int)
    requires
        message_events(message, error_text).contains(MinerEventView::ShareAccepted),
        0 <= i < message_events(message, error_text).len(),
    ensures
        !is_rejection(message_events(message, error_text)[i]),
{
    law_acceptance(message, error_text);
}

/// The job that a notification announces is the one that is mined next, and the
/// dashboard is told its name.
pub proof fn law_notification_sets_the_job(
    state: PoolStateView,
    message: JsonView,
    error_text: Seq<char>,
)
    requires
        method_of(message) == Some("mining.notify"@),
    ensures
        state_after(state, message).job == Some(job_of(params_of(message))),
        message_events(message, error_text) == seq![
            MinerEventView::NewJob(job_of(params_of(message)).job_id),
        ],
{
}

/// Whether bytes are what the parameter at an index stands for: those of its
/// hexadecimal text, or none where it is missing, no string or malformed.
pub open spec fn is_parameter(bytes: Seq<u8>, params: JsonView, index: int) -> bool {
    match params {
        JsonView::Array(items) => if 0 <= index < items.len() && items[index] is Text
            && is_hex_text(items[index]->Text_0) {
            are_bytes_of(bytes, items[index]->Text_0)
        } else {
            bytes.len() == 0
        },
        _ => bytes.len() == 0,
    }
}

/// Whether a job is the one that the parameters announce, in Stratum's order: its
/// name, the previous hash, the two halves of the coinbase, the Merkle branch, the
/// version, the bits and the time.
pub open spec fn is_announced(job: JobView, params: JsonView) -> bool {
    &&& match params {
        JsonView::Array(items) => {
            &&& items.len() > 0 && items[0] is Text ==> job.job_id == items[0]->Text_0
            &&& items.len() == 0 || !(items[0] is Text) ==> job.job_id.len() == 0
            &&& items.len() > 4 && items[4] is Array ==> job.merkle_branch == branch_of(
                items[4]->Array_0,
            )
            &&& items.len() <= 4 || !(items[4] is Array) ==> job.merkle_branch.len() == 0
        },
        _ => job.job_id.len() == 0 && job.merkle_branch.len() == 0,
    }
    &&& is_parameter(job.prevhash, params, 1)
    &&& is_parameter(job.coinb1, params, 2)
    &&& is_parameter(job.coinb2, params, 3)
    &&& is_parameter(job.version, params, 5)
    &&& is_parameter(job.nbits, params, 6)
    &&& is_parameter(job.ntime, params, 7)
}

/// Each part of a job is read from its own parameter, whatever the others hold.
pub proof fn law_parameters_are_read_in_order(params: &Json, job: Job)
    requires
        call_ensures(read_job, (params,), job),
    ensures
        is_announced(job@, params@),
{
    lemma_job_is_announced(params@);
}

/// Whether a message has the given parameters; none count as null.
pub open spec fn has_params(message: JsonView, params: JsonView) -> bool {
    ||| message.member("params"@) == Some(params)
    ||| message.member("params"@) is None && params is Null
}

/// A notification replaces the job by the one that its parameters announce and
/// leaves everything else; the dashboard is told the job's name and no more.
pub proof fn law_notifications_announce_jobs(
    state: PoolStateView,
    message: JsonView,
    params: JsonView,
    error_text: Seq<char>,
)
    requires
        message.member("method"@) == Some(JsonView::Text("mining.notify"@)),
        has_params(message, params),
    ensures
        ({
            let after = state_after(state, message);
            &&& after.job matches Some(job)
            &&& is_announced(job, params)
            &&& after == (PoolStateView { job: Some(job), ..state })
            &&& message_events(message, error_text).len() == 1
            &&& message_events(message, error_text)[0] == MinerEventView::NewJob(job.job_id)
        }),
{
    lemma_job_is_announced(params);
}

/// Every hash of an announced branch is read, in its order: those of two parts
/// of a branch are those of the first and then those of the second. A hexadecimal
/// text gives the hash that it stands for, any other text none, and what is no
/// text counts as an empty hash.
pub proof fn law_branches_are_read_whole(
    first: Seq<JsonView>,
    second: Seq<JsonView>,
    item: JsonView,
)
    ensures
        branch_of(first + second) == branch_of(first) + branch_of(second),
        match item {
            JsonView::Text(text) => if is_hex_text(text) {
                branch_of(seq![item]).len() == 1 && are_bytes_of(branch_of(seq![item])[0], text)
            } else {
                branch_of(seq![item]).len() == 0
            },
            _ => branch_of(seq![item]).len() == 1 && branch_of(seq![item])[0].len() == 0,
        },
    decreases second.len(),
{
    let single = seq![item];
    assert(single.drop_last() =~= Seq::<JsonView>::empty());
    assert(single.last() == item);
    assert(branch_of(single.drop_last()).len() == 0);
    law_encode_undoes_decode(item.text_or_empty());
    if second.len() == 0 {
        assert(first + second =~= first);
        assert(branch_of(first) + branch_of(second) =~= branch_of(first));
    } else {
        law_branches_are_read_whole(first, second.drop_last(), item);
        assert((first + second).drop_last() =~= first + second.drop_last());
        assert(branch_of(first + second) =~= branch_of(first) + branch_of(second));
    }
}

/// Whether an item of a branch is a hexadecimal text.
pub open spec fn is_hash_text(item: JsonView) -> bool {
    item is Text && is_hex_text(item->Text_0)
}

/// A branch of hexadecimal texts gives one hash for each of them, at the same
/// index, at any length.
pub proof fn law_each_hash_is_read(items: Seq<JsonView>, i: int)
    requires
        forall|j: int| 0 <= j < items.len() ==> is_hash_text(#[trigger] items[j]),
        0 <= i < items.len(),
    ensures
        branch_of(items).len() == items.len(),
        are_bytes_of(branch_of(items)[i], items[i]->Text_0),
    decreases items.len(),
{
    let shorter = items.drop_last();
    assert(is_hash_text(items[items.len() - 1]));
    law_encode_undoes_decode(items.last().text_or_empty());
    if shorter.len() == 0 {
        assert(branch_of(shorter).len() == 0);
    } else {
        assert forall|j: int| 0 <= j < shorter.len() implies is_hash_text(
            #[trigger] shorter[j],
        ) by {
            assert(is_hash_text(items[j]));
        }
        law_each_hash_is_read(
            shorter,
            if i < shorter.len() {
                i
            } else {
                0
            },
        );
    }
}

/// Whether the parameter at an index is a hexadecimal text of so many digits.
pub open spec fn has_digits(items: Seq<JsonView>, index: int, digits: nat) -> bool {
    &&& index < items.len()
    &&& is_hash_text(items[index])
    &&& items[index]->Text_0.len() == digits
}

/// A job that is announced with a version, bits and a time of eight digits and a
/// previous hash of sixty-four has headers of eighty bytes.
pub proof fn law_announced_headers_have_eighty_bytes(
    params: &Json,
    job: Job,
    root: Seq<u8>,
    nonce: nat,
)
    requires
        call_ensures(read_job, (params,), job),
        params@ is Array,
        has_digits(params@->Array_0, 1, 64),
        has_digits(params@->Array_0, 5, 8),
        has_digits(params@->Array_0, 6, 8),
        has_digits(params@->Array_0, 7, 8),
        root.len() == 32,
    ensures
        header_of(header_head_of(job@, root), nonce).len() == 80,
{
    lemma_job_is_announced(params@);
    law_header_size(job@, root, nonce);
}

/// A number that the pool sets as the difficulty is the difficulty from then on,
/// and the dashboard is told it and no more. Where the first parameter is no
/// number nothing changes and nothing is told.
pub proof fn law_difficulties_are_taken(
    state: PoolStateView,
    message: JsonView,
    params: JsonView,
    error_text: Seq<char>,
)
    requires
        message.member("method"@) == Some(JsonView::Text("mining.set_difficulty"@)),
        has_params(message, params),
    ensures
        ({
            let after = state_after(state, message);
            let events = message_events(message, error_text);
            let items = params->Array_0;
            if params is Array && items.len() > 0 && items[0] is Number
                && items[0]->Number_0.double_bits is Some {
                let bits = items[0]->Number_0.double_bits->0;
                &&& after == (PoolStateView { difficulty: bits, ..state })
                &&& events.len() == 1
                &&& events[0] == MinerEventView::Difficulty(bits)
            } else {
                &&& after == state
                &&& events.len() == 0
            }
        }),
{
    reveal_strlit("mining.notify");
    reveal_strlit("mining.set_difficulty");
    assert("mining.notify"@.len() != "mining.set_difficulty"@.len());
}

/// What a reply says of a share. The result true with a null error accepts one.
/// The result false rejects one, for the error where there is one; an error that
/// is not null rejects one as well. Nothing else says anything.
pub proof fn law_replies_tell_of_shares(message: JsonView, error_text: Seq<char>)
    requires
        message.member("method"@) is Some ==> !(message.member("method"@)->0 is Text),
    ensures
        ({
            let events = message_events(message, error_text);
            let refused = message.member("result"@) == Some(JsonView::Bool(false));
            let agreed = message.member("result"@) == Some(JsonView::Bool(true));
            match message.member("error"@) {
                None => if refused {
                    events == seq![MinerEventView::ShareRejected("rejected"@)]
                } else {
                    events.len() == 0
                },
                Some(JsonView::Null) => if refused {
                    events == seq![MinerEventView::ShareRejected(error_text)]
                } else if agreed {
                    events == seq![MinerEventView::ShareAccepted]
                } else {
                    events.len() == 0
                },
                Some(_) => if refused {
                    events == seq![
                        MinerEventView::ShareRejected(error_text),
                        MinerEventView::ShareRejected(error_text),
                    ]
                } else {
                    events == seq![MinerEventView::ShareRejected(error_text)]
                },
            }
        }),
{
    let events = message_events(message, error_text);
    let one = seq![MinerEventView::ShareRejected(error_text)];
    assert(one + one =~= seq![
        MinerEventView::ShareRejected(error_text),
        MinerEventView::ShareRejected(error_text),
    ]);
    assert(one + Seq::empty() =~= one);
    assert(Seq::empty() + one =~= one);
    let bare = seq![MinerEventView::ShareRejected("rejected"@)];
    assert(bare + Seq::empty() =~= bare);
    let taken = seq![MinerEventView::ShareAccepted];
    assert(Seq::empty() + taken =~= taken);
}

proof fn lemma_job_is_announced(params: JsonView)
    ensures
        is_announced(job_of(params), params),
{
    law_encode_undoes_decode(params.element(1).text_or_empty());
    law_encode_undoes_decode(params.element(2).text_or_empty());
    law_encode_undoes_decode(params.element(3).text_or_empty());
    law_encode_undoes_decode(params.element(5).text_or_empty());
    law_encode_undoes_decode(params.element(6).text_or_empty());
    law_encode_undoes_decode(params.element(7).text_or_empty());
}

/// A line that is no JSON changes nothing and tells nothing.
pub proof fn law_other_lines_are_ignored(
    line: &str,
    state: &mut PoolState,
    events: Vec<MinerEvent>,
)
    requires
        call_ensures(handle_pool_message, (line, state), events),
        parsed_json(line@) is None,
    ensures
        final(state)@ == old(state)@,
        events@.len() == 0,
{
}

/// A line that notifies of a job replaces the job by the one that its parameters
/// announce, keeps everything else, and tells the job's name.
pub proof fn law_notifying_lines(
    line: &str,
    state: &mut PoolState,
    events: Vec<MinerEvent>,
    message: JsonView,
    params: JsonView,
)
    requires
        call_ensures(handle_pool_message, (line, state), events),
        parsed_json(line@) == Some(message),
        message.member("method"@) == Some(JsonView::Text("mining.notify"@)),
        has_params(message, params),
    ensures
        final(state)@.job matches Some(job) && is_announced(job, params) && final(state)@ == (
        PoolStateView { job: Some(job), ..old(state)@ }) && event_views(events@).len() == 1
            && event_views(events@)[0] == MinerEventView::NewJob(job.job_id),
{
    law_notifications_announce_jobs(
        old(state)@,
        message,
        params,
        member_text(message, "error"@),
    );
}

/// A line with a reply keeps what is known of the pool. One that has the result
/// true and a null error, and no other, tells that a share was accepted, and
/// nothing else.
pub proof fn law_accepting_lines(
    line: &str,
    state: &mut PoolState,
    events: Vec<MinerEvent>,
    message: JsonView,
)
    requires
        call_ensures(handle_pool_message, (line, state), events),
        parsed_json(line@) == Some(message),
        message.member("method"@) is None,
    ensures
        final(state)@ == old(state)@,
        event_views(events@).contains(MinerEventView::ShareAccepted) <==> message.member(
            "result"@,
        ) == Some(JsonView::Bool(true)) && message.member("error"@) == Some(JsonView::Null),
        event_views(events@).contains(MinerEventView::ShareAccepted) ==> events@.len() == 1,
{
    law_acceptance(message, member_text(message, "error"@));
}

} // verus!
