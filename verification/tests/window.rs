use rust_miner::address::{
    config_directory, config_text, entered_address, looks_like_btc_address, saved_address,
};
use rust_miner::dashboard::{Dashboard, HISTORY_LEN, LOG_LEN};
use rust_miner::demo::{demo_requested, Demo, DEMO_DIFFICULTY_BITS};
use rust_miner::display::{
    active_tab, dash_field_text, history_bar, history_scale, log_text, next_pickaxe_frame,
    pool_field_text, tab_is_active, DashField, PoolField, Tab, Tone,
};
use rust_miner::events::MinerEvent;
use rust_miner::text::{decimal_text, format_num, padded_decimal_text, same_text};

const ADDRESS: &str = "1A1zP1eP5QGefi2DMPTfTL5SLmv7DivfNa";

#[test]
fn numbers_are_grouped() {
    assert_eq!(format_num(0), "0");
    assert_eq!(format_num(999), "999");
    assert_eq!(format_num(1000), "1,000");
    assert_eq!(format_num(1_234_567), "1,234,567");
    assert_eq!(format_num(1_000_000_001), "1,000,000,001");
    assert_eq!(format_num(u64::MAX), "18,446,744,073,709,551,615");
}

#[test]
fn commas_only_group() {
    for n in [0u64, 12, 1234, 999_999, 1_000_000, u64::MAX] {
        assert_eq!(format_num(n).replace(',', ""), n.to_string());
        assert_eq!(decimal_text(n), n.to_string());
    }
}

#[test]
fn numbers_are_padded() {
    assert_eq!(padded_decimal_text(7, 4), "0007");
    assert_eq!(padded_decimal_text(12345, 4), "12345");
    assert_eq!(padded_decimal_text(0, 0), "0");
    assert!(same_text("ab", "ab"));
    assert!(!same_text("ab", "abc"));
}

#[test]
fn addresses_are_told_by_start_and_length() {
    assert!(looks_like_btc_address(ADDRESS));
    assert!(looks_like_btc_address("3J98t1WpEZ73CNmQviecrnyiWrnqRhWNLy"));
    assert!(looks_like_btc_address("bc1qar0srrr7xfkvy5l643lydnw9re59gtzzwf5mdq"));
    assert!(looks_like_btc_address(&format!("  {}\r\n", ADDRESS)));
    assert!(!looks_like_btc_address("2J98t1WpEZ73CNmQviecrnyiWrnqRhWNLy"));
    assert!(!looks_like_btc_address("bcqar0srrr7xfkvy5l643lydnw9re59gtzzwf5mdq"));
    assert!(!looks_like_btc_address(""));
    assert!(!looks_like_btc_address(&"1".repeat(25)));
    assert!(looks_like_btc_address(&"1".repeat(26)));
    assert!(looks_like_btc_address(&"1".repeat(62)));
    assert!(!looks_like_btc_address(&"1".repeat(63)));
}

#[test]
fn the_length_of_an_address_is_in_bytes() {
    assert!(looks_like_btc_address(&format!("1{}a", "\u{e9}".repeat(12))));
    assert!(!looks_like_btc_address(&format!("1{}", "\u{e9}".repeat(31))));
}

#[test]
fn unicode_white_space_is_trimmed() {
    assert_eq!(
        entered_address(&format!("\u{2003}\u{3000}{}\u{a0}\u{85}\t", ADDRESS)),
        Some(ADDRESS.to_string())
    );
    assert_eq!(entered_address(&format!("\u{200b}{}", ADDRESS)), None);
}

#[test]
fn typed_addresses_are_checked() {
    assert_eq!(entered_address(&format!(" {}\n", ADDRESS)), Some(ADDRESS.to_string()));
    assert_eq!(entered_address("hello\n"), None);
    assert_eq!(entered_address("\n"), None);
}

#[test]
fn a_saved_address_is_read_back() {
    let contents = config_text(ADDRESS);
    assert_eq!(contents, format!("{{\n  \"address\": \"{}\"\n}}", ADDRESS));
    assert_eq!(saved_address(&contents), Some(ADDRESS.to_string()));
}

#[test]
fn unusable_configurations_hold_no_address() {
    assert_eq!(saved_address("not json"), None);
    assert_eq!(saved_address("{}"), None);
    assert_eq!(saved_address("{\"address\":5}"), None);
    assert_eq!(saved_address("{\"address\":\"short\"}"), None);
    let padded = format!("{{\"address\":\" {} \"}}", ADDRESS);
    assert_eq!(saved_address(&padded), Some(format!(" {} ", ADDRESS)));
}

#[test]
fn the_configuration_is_kept_at_home() {
    let some = |text: &str| Some(text.to_string());
    assert_eq!(config_directory(some("h"), some("p")), "h");
    assert_eq!(config_directory(None, some("p")), "p");
    assert_eq!(config_directory(None, None), ".");
}

#[test]
fn events_change_the_dashboard() {
    let mut dashboard = Dashboard::new();
    dashboard.receive_events(vec![
        MinerEvent::Connected("P".to_string()),
        MinerEvent::Difficulty(2.0f64.to_bits()),
        MinerEvent::NewJob("j".to_string()),
        MinerEvent::HashUpdate { hashes: 10, hashrate: 20 },
        MinerEvent::ShareAccepted,
        MinerEvent::ShareRejected("stale".to_string()),
        MinerEvent::Log("note".to_string()),
    ]);
    assert!(dashboard.status.connected);
    assert_eq!(dashboard.status.pool_addr, "P");
    assert_eq!(dashboard.status.difficulty, 2.0f64.to_bits());
    assert_eq!(dashboard.status.job_id, "j");
    assert_eq!(dashboard.status.hashes, 10);
    assert_eq!(dashboard.status.hashrate, 20);
    assert_eq!(dashboard.status.shares_accepted, 1);
    assert_eq!(dashboard.status.shares_rejected, 1);
    assert_eq!(dashboard.history, vec![20]);
    assert_eq!(
        dashboard.log,
        vec!["note", "share rejected: stale", "share accepted", "connected to P"]
    );
    dashboard.apply(MinerEvent::Disconnected);
    assert!(!dashboard.status.connected);
    assert_eq!(dashboard.log[0], "disconnected from pool");
    assert_eq!(dashboard.status.pool_addr, "P");
}

#[test]
fn history_and_log_are_bounded() {
    let mut dashboard = Dashboard::new();
    for n in 0..100u64 {
        dashboard.apply(MinerEvent::HashUpdate { hashes: n, hashrate: n });
        dashboard.apply(MinerEvent::Log(n.to_string()));
    }
    assert_eq!(dashboard.history.len(), HISTORY_LEN);
    assert_eq!(dashboard.history[0], 76);
    assert_eq!(dashboard.history[23], 99);
    assert_eq!(dashboard.log.len(), LOG_LEN);
    assert_eq!(dashboard.log[0], "99");
    assert_eq!(dashboard.log[13], "86");
}

#[test]
fn fields_of_the_dashboard_page() {
    let mut dashboard = Dashboard::new();
    let show = |d: &Dashboard, f: DashField| dash_field_text(f, &d.status, "0.5000");
    assert_eq!(show(&dashboard, DashField::Status), ("OFFLINE".to_string(), Some(Tone::Bad)));
    assert_eq!(show(&dashboard, DashField::Difficulty), ("-".to_string(), None));
    dashboard.apply(MinerEvent::Connected("P".to_string()));
    dashboard.apply(MinerEvent::HashUpdate { hashes: 1234, hashrate: 5678 });
    dashboard.apply(MinerEvent::Difficulty(0.5f64.to_bits()));
    assert_eq!(show(&dashboard, DashField::Status), ("MINING".to_string(), Some(Tone::Good)));
    assert_eq!(show(&dashboard, DashField::Hashes), ("1,234".to_string(), None));
    assert_eq!(show(&dashboard, DashField::Hashrate), ("5,678/s".to_string(), None));
    assert_eq!(show(&dashboard, DashField::Shares), ("0".to_string(), None));
    assert_eq!(show(&dashboard, DashField::Difficulty), ("0.5000".to_string(), None));
}

#[test]
fn only_positive_difficulties_are_shown() {
    let mut dashboard = Dashboard::new();
    for difficulty in [0.0f64, -0.0, -1.0, f64::NAN, -f64::NAN, f64::NEG_INFINITY] {
        dashboard.apply(MinerEvent::Difficulty(difficulty.to_bits()));
        assert_eq!(dash_field_text(DashField::Difficulty, &dashboard.status, "x").0, "-");
    }
    for difficulty in [1.0f64, f64::MIN_POSITIVE, f64::from_bits(1), f64::MAX, f64::INFINITY] {
        dashboard.apply(MinerEvent::Difficulty(difficulty.to_bits()));
        assert_eq!(dash_field_text(DashField::Difficulty, &dashboard.status, "x").0, "x");
    }
}

#[test]
fn fields_of_the_pool_page() {
    let mut dashboard = Dashboard::new();
    let show = |d: &Dashboard, f: PoolField| pool_field_text(f, &d.status);
    assert_eq!(show(&dashboard, PoolField::Conn), ("DISCONNECTED".to_string(), Some(Tone::Bad)));
    assert_eq!(show(&dashboard, PoolField::Addr), ("-".to_string(), None));
    assert_eq!(show(&dashboard, PoolField::Job), ("-".to_string(), None));
    dashboard.receive_events(vec![
        MinerEvent::Connected("P".to_string()),
        MinerEvent::NewJob("j".to_string()),
        MinerEvent::ShareAccepted,
        MinerEvent::ShareRejected(String::new()),
        MinerEvent::ShareRejected(String::new()),
    ]);
    assert_eq!(show(&dashboard, PoolField::Conn), ("CONNECTED".to_string(), Some(Tone::Good)));
    assert_eq!(show(&dashboard, PoolField::Addr), ("P".to_string(), None));
    assert_eq!(show(&dashboard, PoolField::Job), ("j".to_string(), None));
    assert_eq!(show(&dashboard, PoolField::Accepted), ("1".to_string(), None));
    assert_eq!(show(&dashboard, PoolField::Rejected), ("2".to_string(), None));
}

#[test]
fn the_log_page_joins_its_lines() {
    let mut dashboard = Dashboard::new();
    assert_eq!(log_text(&dashboard.log), "Waiting for pool connection...");
    dashboard.apply(MinerEvent::Log("a".to_string()));
    assert_eq!(log_text(&dashboard.log), "a");
    dashboard.apply(MinerEvent::Log("b".to_string()));
    assert_eq!(log_text(&dashboard.log), "b\na");
}

#[test]
fn the_graph_is_scaled_to_its_highest_bar() {
    let mut dashboard = Dashboard::new();
    assert_eq!(history_scale(&dashboard.history), 1);
    assert_eq!(history_bar(&dashboard.history, 0), 0);
    for hashrate in [3u64, 9, 4] {
        dashboard.apply(MinerEvent::HashUpdate { hashes: 0, hashrate });
    }
    assert_eq!(history_scale(&dashboard.history), 9);
    assert_eq!(history_bar(&dashboard.history, 2), 4);
    assert_eq!(history_bar(&dashboard.history, 3), 0);
}

#[test]
fn tabs_and_frames() {
    assert_eq!(active_tab(Tab::Log, &[]), Tab::Log);
    assert_eq!(active_tab(Tab::Log, &[Tab::Dashboard, Tab::Pool]), Tab::Pool);
    assert!(tab_is_active(Tab::Pool, Tab::Pool));
    assert!(!tab_is_active(Tab::Pool, Tab::Log));
    assert_eq!(next_pickaxe_frame(0), 1);
    assert_eq!(next_pickaxe_frame(10), 0);
    assert_eq!(next_pickaxe_frame(11), 1);
}

#[test]
fn the_demo_is_asked_for_by_an_argument() {
    let args = |list: &[&str]| list.iter().map(|a| a.to_string()).collect::<Vec<String>>();
    assert!(demo_requested(&args(&["miner", "--demo"])));
    assert!(!demo_requested(&args(&["miner", "--demos"])));
    assert!(!demo_requested(&args(&[])));
}

#[test]
fn the_demo_invents_events() {
    assert_eq!(DEMO_DIFFICULTY_BITS, 0.001f64.to_bits());
    let (mut demo, events) = Demo::start();
    assert_eq!(events.len(), 4);
    assert!(matches!(&events[0], MinerEvent::Connected(a) if a == "DEMO MODE (no real pool)"));
    assert!(matches!(&events[2], MinerEvent::NewJob(a) if a == "demo-job-0001"));
    let mut accepted = 0;
    let mut rejected = 0;
    for tick in 1..=60u64 {
        assert!(demo.can_tick(1001));
        let events = demo.tick(1001);
        assert!(
            matches!(events[0], MinerEvent::HashUpdate { hashes, hashrate: 1001 } if hashes == 500 * tick)
        );
        for event in &events {
            match event {
                MinerEvent::ShareAccepted => accepted += 1,
                MinerEvent::ShareRejected(reason) => {
                    assert_eq!(reason, "demo: simulated stale share");
                    rejected += 1;
                }
                _ => {}
            }
        }
        if tick == 60 {
            assert_eq!(events.len(), 4);
            assert!(
                matches!(&events[2], MinerEvent::Log(line) if line == "[demo] fake share accepted (job demo-job-0006)")
            );
            assert!(matches!(&events[3], MinerEvent::NewJob(id) if id == "demo-job-0007"));
        }
    }
    assert_eq!(accepted, 10);
    assert_eq!(rejected, 3);
}

#[test]
fn the_demo_stops_before_its_counters_run_over() {
    assert!(!Demo { hashes: 0, tick: u64::MAX, job_num: 1 }.can_tick(0));
    assert!(!Demo { hashes: u64::MAX, tick: 0, job_num: 1 }.can_tick(2));
    assert!(Demo { hashes: u64::MAX, tick: 0, job_num: 1 }.can_tick(1));
    assert!(!Demo { hashes: 0, tick: 9, job_num: u32::MAX }.can_tick(0));
    assert!(Demo { hashes: 0, tick: 8, job_num: u32::MAX }.can_tick(0));
}

fn sample_events(from: u64) -> Vec<MinerEvent> {
    let mut events = Vec::new();
    for n in from..from + 20 {
        events.push(MinerEvent::HashUpdate { hashes: n, hashrate: 2 * n });
        events.push(MinerEvent::Log(n.to_string()));
        events.push(MinerEvent::ShareAccepted);
    }
    events.push(MinerEvent::Disconnected);
    events
}

#[test]
fn two_batches_give_what_one_gives() {
    let mut one = Dashboard::new();
    let mut all = sample_events(0);
    all.extend(sample_events(20));
    one.receive_events(all);
    let mut two = Dashboard::new();
    two.receive_events(sample_events(0));
    two.receive_events(vec![]);
    two.receive_events(sample_events(20));
    assert_eq!(format!("{:?}", one), format!("{:?}", two));
    assert_eq!(two.status.shares_accepted, 40);
    assert_eq!(two.status.hashes, 39);
    assert_eq!(two.history[0], 32);
    assert_eq!(two.log[0], "disconnected from pool");
    assert_eq!(two.log[2], "39");
}

#[test]
fn a_full_counter_takes_events_that_count_no_share() {
    let mut dashboard = Dashboard::new();
    dashboard.status.shares_accepted = u64::MAX;
    dashboard.status.shares_rejected = u64::MAX - 1;
    dashboard.receive_events(vec![
        MinerEvent::Log("a".to_string()),
        MinerEvent::ShareRejected("b".to_string()),
        MinerEvent::Disconnected,
    ]);
    assert_eq!(dashboard.status.shares_accepted, u64::MAX);
    assert_eq!(dashboard.status.shares_rejected, u64::MAX);
    assert_eq!(dashboard.log.len(), 3);
}

#[test]
fn the_demo_counts_half_of_each_rate() {
    let (mut demo, _) = Demo::start();
    let mut total = 0u64;
    for rate in [400_000u64, 1_300_000, 999_999] {
        total += rate / 2;
        let events = demo.tick(rate);
        assert!(matches!(events[0], MinerEvent::HashUpdate { hashes, .. } if hashes == total));
    }
}

#[test]
fn the_demo_counts_every_tick() {
    let (mut demo, _) = Demo::start();
    let mut total = 0u64;
    for i in 0..35u64 {
        let rate = 400_000 + 25_001 * i;
        total += rate / 2;
        let events = demo.tick(rate);
        assert!(matches!(
            events[0],
            MinerEvent::HashUpdate { hashes, hashrate } if hashes == total && hashrate == rate
        ));
    }
    assert_eq!(demo, Demo { hashes: total, tick: 35, job_num: 4 });
}
