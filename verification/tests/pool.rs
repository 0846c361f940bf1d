use rust_miner::events::MinerEvent;
use rust_miner::json::{object_text, parse_json, parse_json_with_member, Json};
use rust_miner::pools::{pick_best_pool, pool_candidates};
use rust_miner::protocol::{handle_pool_message, PoolState, DIFFICULTY_ONE_BITS};
use rust_miner::session::{
    authorization, connection_failed, pool_title, Phase, Session, SessionAction,
};

fn fresh_state() -> PoolState {
    PoolState {
        job: None,
        difficulty: DIFFICULTY_ONE_BITS,
        extranonce1: vec![],
        extranonce2_size: 4,
    }
}

fn started() -> Session {
    let (session, actions) = Session::start(
        "Germany".to_string(),
        "eusolo.ckpool.org".to_string(),
        3333,
        "1wallet".to_string(),
    );
    assert_eq!(actions.len(), 1);
    match &actions[0] {
        SessionAction::Send(line) => assert_eq!(
            line,
            "{\"id\":1,\"method\":\"mining.subscribe\",\"params\":[\"rust-miner/0.1\"]}"
        ),
        other => panic!("{:?}", other),
    }
    session
}

fn rejection(event: &MinerEvent) -> &str {
    match event {
        MinerEvent::ShareRejected(reason) => reason,
        other => panic!("{:?}", other),
    }
}

const NOTIFY: &str = "{\"id\":null,\"method\":\"mining.notify\",\"params\":[\"bf\",\"0A0b\",\"01\",\"02\",[\"aa\",\"xyz\",7,\"BB\"],\"20000000\",\"zz\",\"504e86b9\",false]}";

#[test]
fn difficulty_one_has_its_bits() {
    assert_eq!(DIFFICULTY_ONE_BITS, 1.0f64.to_bits());
}

#[test]
fn json_values_are_read() {
    let json = parse_json("{\"a\":[1,-2,2.5,true,null,\"t\"],\"b\":{}}").expect("JSON");
    let a = json.member("a").expect("a member");
    assert_eq!(a.element(0).unwrap().unsigned(), Some(1));
    assert_eq!(a.element(0).unwrap().double_bits(), Some(1.0f64.to_bits()));
    assert_eq!(a.element(1).unwrap().unsigned(), None);
    assert_eq!(a.element(1).unwrap().double_bits(), Some((-2.0f64).to_bits()));
    match a.element(1).unwrap() {
        Json::Number(number) => assert_eq!(number.signed, Some(-2)),
        other => panic!("{:?}", other),
    }
    assert_eq!(a.element(2).unwrap().unsigned(), None);
    assert_eq!(a.element(2).unwrap().double_bits(), Some(2.5f64.to_bits()));
    assert!(matches!(a.element(3), Some(Json::Bool(true))));
    assert!(matches!(a.element(4), Some(Json::Null)));
    assert_eq!(a.element_text(5), "t");
    assert_eq!(a.element_text(0), "");
    assert!(a.element(6).is_none());
    assert!(json.member("c").is_none());
    assert!(a.member("a").is_none());
    assert!(matches!(json.member("b"), Some(Json::Object(_))));
    assert!(json.element(0).is_none());
    assert!(json.text().is_none());
}

#[test]
fn texts_that_are_no_json_are_refused() {
    assert!(parse_json("").is_none());
    assert!(parse_json("{").is_none());
    assert!(parse_json("1 2").is_none());
}

#[test]
fn the_last_of_equal_members_counts() {
    let json = parse_json("{\"a\":1,\"a\":2}").expect("JSON");
    assert_eq!(json.member("a").unwrap().unsigned(), Some(2));
}

#[test]
fn a_member_is_given_as_compact_text() {
    let (_, text) = parse_json_with_member("{\"error\": [21, \"Job not found\", null]}", "error")
        .expect("JSON");
    assert_eq!(text, "[21,\"Job not found\",null]");
    let (_, text) = parse_json_with_member("{}", "error").expect("JSON");
    assert_eq!(text, "");
    assert!(parse_json_with_member("x", "error").is_none());
}

#[test]
fn objects_are_written_indented_and_read_back() {
    let text = object_text("address", "1a\"b\\c\u{e9}\n");
    assert_eq!(text, "{\n  \"address\": \"1a\\\"b\\\\c\u{e9}\\n\"\n}");
    let json = parse_json(&text).expect("JSON");
    assert_eq!(json.member("address").unwrap().text(), Some("1a\"b\\c\u{e9}\n"));
}

#[test]
fn a_notification_replaces_the_job() {
    let mut state = fresh_state();
    let events = handle_pool_message(NOTIFY, &mut state);
    assert_eq!(events.len(), 1);
    match &events[0] {
        MinerEvent::NewJob(id) => assert_eq!(id, "bf"),
        other => panic!("{:?}", other),
    }
    let job = state.job.expect("a job");
    assert_eq!(job.job_id, "bf");
    assert_eq!(job.prevhash, vec![0x0a, 0x0b]);
    assert_eq!(job.coinb1, vec![1]);
    assert_eq!(job.coinb2, vec![2]);
    assert_eq!(job.merkle_branch, vec![vec![0xaa], vec![], vec![0xbb]]);
    assert_eq!(job.version, vec![0x20, 0, 0, 0]);
    assert_eq!(job.nbits, Vec::<u8>::new());
    assert_eq!(job.ntime, vec![0x50, 0x4e, 0x86, 0xb9]);
    assert_eq!(state.difficulty, DIFFICULTY_ONE_BITS);
}

#[test]
fn a_notification_without_parameters_gives_an_empty_job() {
    let mut state = fresh_state();
    let events = handle_pool_message("{\"method\":\"mining.notify\"}", &mut state);
    assert_eq!(events.len(), 1);
    let job = state.job.expect("a job");
    assert_eq!(job.job_id, "");
    assert!(job.merkle_branch.is_empty());
}

#[test]
fn a_new_difficulty_is_taken() {
    let mut state = fresh_state();
    let line = "{\"method\":\"mining.set_difficulty\",\"params\":[0.5]}";
    let events = handle_pool_message(line, &mut state);
    assert_eq!(state.difficulty, 0.5f64.to_bits());
    assert!(matches!(events[0], MinerEvent::Difficulty(bits) if bits == 0.5f64.to_bits()));
    let line = "{\"method\":\"mining.set_difficulty\",\"params\":[\"2\"]}";
    assert!(handle_pool_message(line, &mut state).is_empty());
    assert_eq!(state.difficulty, 0.5f64.to_bits());
    let line = "{\"method\":\"mining.set_difficulty\",\"params\":[2]}";
    handle_pool_message(line, &mut state);
    assert_eq!(state.difficulty, 2.0f64.to_bits());
}

#[test]
fn unknown_methods_and_broken_lines_are_ignored() {
    let mut state = fresh_state();
    let line = "{\"method\":\"client.show_message\",\"result\":false,\"error\":\"x\"}";
    assert!(handle_pool_message(line, &mut state).is_empty());
    assert!(handle_pool_message("not json", &mut state).is_empty());
    assert!(handle_pool_message("[]", &mut state).is_empty());
    assert!(state.job.is_none());
}

#[test]
fn shares_are_accepted_and_rejected() {
    let mut state = fresh_state();
    let events = handle_pool_message("{\"id\":100,\"result\":true,\"error\":null}", &mut state);
    assert_eq!(events.len(), 1);
    assert!(matches!(events[0], MinerEvent::ShareAccepted));
    assert!(handle_pool_message("{\"id\":100,\"result\":true}", &mut state).is_empty());
    let events = handle_pool_message("{\"id\":100,\"result\":false}", &mut state);
    assert_eq!(events.len(), 1);
    assert_eq!(rejection(&events[0]), "rejected");
    let events = handle_pool_message("{\"id\":100,\"result\":false,\"error\":null}", &mut state);
    assert_eq!(events.len(), 1);
    assert_eq!(rejection(&events[0]), "null");
    let line = "{\"id\":100,\"result\":null,\"error\":[21, \"stale\"]}";
    let events = handle_pool_message(line, &mut state);
    assert_eq!(events.len(), 1);
    assert_eq!(rejection(&events[0]), "[21,\"stale\"]");
    let line = "{\"id\":100,\"result\":false,\"error\":\"low\"}";
    let events = handle_pool_message(line, &mut state);
    assert_eq!(events.len(), 2);
    assert_eq!(rejection(&events[0]), "\"low\"");
    assert_eq!(rejection(&events[1]), "\"low\"");
}

#[test]
fn a_session_subscribes_authorizes_and_mines() {
    let mut session = started();
    assert!(session.receive_line(NOTIFY).is_empty());
    assert!(session.pool.job.is_none());
    assert!(session.receive_line("garbage").is_empty());
    assert!(session.receive_line("{\"id\":2,\"result\":[]}").is_empty());
    let actions = session.receive_line("{\"id\":1,\"result\":[[],\"f000000f\",8],\"error\":null}");
    assert_eq!(actions.len(), 3);
    match &actions[0] {
        SessionAction::Send(line) => assert_eq!(
            line,
            "{\"id\":2,\"method\":\"mining.authorize\",\"params\":[\"1wallet.rustminer1\",\"x\"]}"
        ),
        other => panic!("{:?}", other),
    }
    match &actions[1] {
        SessionAction::Emit(MinerEvent::Connected(name)) => {
            assert_eq!(name, "Germany (eusolo.ckpool.org:3333)")
        }
        other => panic!("{:?}", other),
    }
    assert!(matches!(actions[2], SessionAction::StartMining));
    assert_eq!(session.phase, Phase::Mining);
    assert_eq!(session.pool.extranonce1, vec![0xf0, 0, 0, 0x0f]);
    assert_eq!(session.pool.extranonce2_size, 8);
    assert_eq!(session.receive_line(NOTIFY).len(), 1);
    assert_eq!(session.pool.job.as_ref().unwrap().job_id, "bf");
    assert_eq!(session.pool.extranonce2_size, 8);
}

#[test]
fn a_session_ends_once() {
    let mut session = started();
    let actions = session.receive_end();
    assert_eq!(actions.len(), 1);
    assert!(matches!(actions[0], SessionAction::Emit(MinerEvent::Disconnected)));
    assert_eq!(session.phase, Phase::Closed);
    assert!(session.receive_line("{\"id\":1,\"result\":[]}").is_empty());
    assert_eq!(session.phase, Phase::Closed);
}

#[test]
fn a_subscription_without_result_keeps_the_defaults() {
    let mut session = started();
    assert_eq!(session.receive_line("{\"id\":1}").len(), 3);
    assert!(session.pool.extranonce1.is_empty());
    assert_eq!(session.pool.extranonce2_size, 4);
}

#[test]
fn lines_and_titles() {
    assert_eq!(
        authorization("3abc"),
        "{\"id\":2,\"method\":\"mining.authorize\",\"params\":[\"3abc.rustminer1\",\"x\"]}"
    );
    assert_eq!(pool_title("A", "h", 65535), "A (h:65535)");
    let events = connection_failed("refused");
    match &events[0] {
        MinerEvent::Log(line) => assert_eq!(line, "pool connect failed: refused"),
        other => panic!("{:?}", other),
    }
    assert!(matches!(events[1], MinerEvent::Disconnected));
    assert_eq!(events.len(), 2);
}

#[test]
fn the_fastest_pool_is_picked() {
    let pools = pool_candidates();
    assert_eq!(pools.len(), 5);
    let pick = |latencies: [Option<u128>; 5]| pick_best_pool(&pools, &latencies).2;
    assert_eq!(pick([None, None, None, None, None]), "US West");
    assert_eq!(pick([Some(9), Some(7), None, Some(7), Some(8)]), "US East");
    assert_eq!(pick([None, None, None, Some(7), None]), "Singapore");
    assert_eq!(pick([Some(5), Some(4), Some(3), Some(2), Some(1)]), "Australia");
    assert_eq!(
        pick_best_pool(&pools, &[None, None, Some(0), None, Some(0)]),
        ("eusolo.ckpool.org".to_string(), 3333, "Germany")
    );
}
