use num_bigint::BigUint;
use rust_miner::bytes::{be_bytes, le_bytes, reversed};
use rust_miner::hashing::sha256d;
use rust_miner::hexcode::{decode_hex, decode_hex_or_empty, encode_hex};
use rust_miner::job::{coinbase, header, header_head, merkle_root, swap_word_order, Job};
use rust_miner::miner::{submission, worker_count, workers_for, Attempt, Miner};
use rust_miner::protocol::{PoolState, DIFFICULTY_ONE_BITS};
use rust_miner::target::{counted_difficulty, difficulty_to_target, meets_target};
use rust_miner::worker::{Worker, WorkerPhase};

fn hex(text: &str) -> Vec<u8> {
    decode_hex(text).expect("hexadecimal text")
}

fn sample_job() -> Job {
    Job {
        job_id: "bf".to_string(),
        prevhash: (0u8..32).collect(),
        coinb1: hex("0102"),
        coinb2: hex("0304"),
        merkle_branch: vec![vec![0xaa; 32], vec![0xbb; 32]],
        version: hex("20000000"),
        nbits: hex("1a44b9f2"),
        ntime: hex("504e86b9"),
    }
}

#[test]
fn sha256d_of_known_messages() {
    assert_eq!(
        encode_hex(&sha256d(b"")),
        "5df6e0e2761359d30a8275058e299fcc0381534545f55cf43e41983f5d4c9456"
    );
    assert_eq!(
        encode_hex(&sha256d(b"hello")),
        "9595c9df90075148eb06860365df33584b75bff782a510c6cd4883a419833d50"
    );
}

#[test]
fn words_are_swapped_and_a_short_rest_too() {
    assert_eq!(swap_word_order(&[]), Vec::<u8>::new());
    assert_eq!(swap_word_order(&[1, 2, 3, 4, 5, 6, 7, 8]), vec![4, 3, 2, 1, 8, 7, 6, 5]);
    assert_eq!(swap_word_order(&[1, 2, 3, 4, 5, 6]), vec![4, 3, 2, 1, 6, 5]);
}

#[test]
fn swapping_words_twice_changes_nothing() {
    let bytes: Vec<u8> = (0u8..39).collect();
    assert_eq!(swap_word_order(&swap_word_order(&bytes)), bytes);
}

#[test]
fn numbers_become_bytes() {
    assert_eq!(be_bytes(0x0102_0304, 4), vec![1, 2, 3, 4]);
    assert_eq!(be_bytes(0x0102_0304, 2), vec![3, 4]);
    assert_eq!(be_bytes(5, 0), Vec::<u8>::new());
    assert_eq!(be_bytes(u64::MAX, 8), u64::MAX.to_be_bytes().to_vec());
    assert_eq!(be_bytes(0x0102, 5), vec![0, 0, 0, 1, 2]);
    let long = be_bytes(0x0102, 5_000_000);
    assert_eq!(long.len(), 5_000_000);
    assert_eq!(long[4_999_997..], [0, 1, 2]);
    assert_eq!(le_bytes(0x0102_0304), vec![4, 3, 2, 1]);
    assert_eq!(reversed(&[1, 2, 3]), vec![3, 2, 1]);
}

#[test]
fn hexadecimal_text() {
    assert_eq!(encode_hex(&[0x00, 0x0f, 0xa0, 0xff]), "000fa0ff");
    assert_eq!(decode_hex("000fA0Ff"), Some(vec![0x00, 0x0f, 0xa0, 0xff]));
    assert_eq!(decode_hex(""), Some(vec![]));
    assert_eq!(decode_hex("abc"), None);
    assert_eq!(decode_hex("zz"), None);
    assert_eq!(decode_hex("\u{e9}"), None);
    assert_eq!(decode_hex_or_empty("zz"), Vec::<u8>::new());
    assert_eq!(decode_hex_or_empty("10"), vec![16]);
}

#[test]
fn decoding_undoes_encoding() {
    let bytes: Vec<u8> = (0u8..=255).collect();
    assert_eq!(decode_hex(&encode_hex(&bytes)), Some(bytes));
}

#[test]
fn targets_of_difficulties() {
    let one = BigUint::from(0xFFFFu64) << 208u32;
    assert_eq!(difficulty_to_target(1_000_000), one);
    assert_eq!(difficulty_to_target(500_000), BigUint::from(0x1_FFFEu64) << 208u32);
    assert_eq!(difficulty_to_target(3_000_000), &one / BigUint::from(3u64));
    assert_eq!(difficulty_to_target(1), &one * BigUint::from(1_000_000u64));
    assert_eq!(difficulty_to_target(0), difficulty_to_target(1));
}

#[test]
fn harder_targets_are_smaller() {
    assert!(difficulty_to_target(2_000_001) < difficulty_to_target(2_000_000));
    assert!(difficulty_to_target(u64::MAX) < difficulty_to_target(1));
}

#[test]
fn hashes_are_read_from_their_lowest_byte() {
    assert!(meets_target(&[1, 0], &BigUint::from(1u64)));
    assert!(!meets_target(&[0, 1], &BigUint::from(255u64)));
    assert!(meets_target(&[0, 1], &BigUint::from(256u64)));
    assert!(meets_target(&[], &BigUint::from(0u64)));
}

#[test]
fn genesis_block_is_hashed_as_bitcoin_does() {
    let transaction = hex(concat_text().as_str());
    let job = Job {
        job_id: String::new(),
        prevhash: vec![0; 32],
        coinb1: transaction[..100].to_vec(),
        coinb2: transaction[103..].to_vec(),
        merkle_branch: vec![],
        version: hex("01000000"),
        nbits: hex("ffff001d"),
        ntime: hex("29ab5f49"),
    };
    let whole = coinbase(&job, &transaction[100..102], &transaction[102..103]);
    assert_eq!(whole, transaction);
    let root = merkle_root(&whole, &job.merkle_branch);
    assert_eq!(
        encode_hex(&root),
        "3ba3edfd7a7b12b27ac72c3e67768f617fc81bc3888a51323a9fb8aa4b1e5e4a"
    );
    let bytes = header(&header_head(&job, &root), 2_083_236_893);
    assert_eq!(bytes.len(), 80);
    let hash = sha256d(&bytes);
    assert_eq!(
        encode_hex(&hash),
        "6fe28c0ab6f1b372c1a6a246ae63f74f931e8365e15a089c68d6190000000000"
    );
    assert!(meets_target(&hash, &difficulty_to_target(1_000_000)));
    assert!(!meets_target(&hash, &difficulty_to_target(10_000_000_000)));
}

fn concat_text() -> String {
    [
        "01000000010000000000000000000000000000000000000000000000000000000000000000ffffffff4d04",
        "ffff001d0104455468652054696d65732030332f4a616e2f32303039204368616e63656c6c6f72206f6e20",
        "6272696e6b206f66207365636f6e64206261696c6f757420666f722062616e6b73ffffffff0100f2052a01",
        "000000434104678afdb0fe5548271967f1a67130b7105cd6a828e03909a67962e0ea1f61deb649f6bc3f4c",
        "ef38c4f35504e51ec112de5c384df7ba0b8d578a4c702b6bf11d5fac00000000",
    ]
    .join("")
}

#[test]
fn header_of_a_job() {
    let job = sample_job();
    let whole = coinbase(&job, &hex("f000000f"), &hex("00000002"));
    assert_eq!(encode_hex(&whole), "0102f000000f000000020304");
    let root = merkle_root(&whole, &job.merkle_branch);
    assert_eq!(
        encode_hex(&root),
        "ea7bdcaf3c2040aeaf23b962d114911d20862eb18571246a351f111257373b70"
    );
    assert_eq!(
        encode_hex(&header(&header_head(&job, &root), 8853)),
        [
            "2000000003020100070605040b0a09080f0e0d0c13121110171615141b1a19181f1e1d1c",
            "ea7bdcaf3c2040aeaf23b962d114911d20862eb18571246a351f111257373b70",
            "504e86b91a44b9f295220000",
        ]
        .join("")
    );
}

#[test]
fn a_round_submits_the_first_share() {
    let mut miner = Miner::new();
    let mut round = miner.begin_round(&sample_job(), &hex("f000000f"), 4, 1);
    assert_eq!(miner.extranonce2, 2);
    for _ in 0..8853 {
        match miner.try_nonce(&mut round, Some("bf"), "1wallet") {
            Attempt::Hashed(share) => assert!(share.is_none()),
            Attempt::Over => panic!("the round ended early"),
        }
    }
    match miner.try_nonce(&mut round, Some("bf"), "1wallet") {
        Attempt::Hashed(Some(share)) => {
            assert_eq!(
                share.submission,
                "{\"id\":100,\"method\":\"mining.submit\",\"params\":[\"1wallet.rustminer1\",\"bf\",\"00000002\",\"504e86b9\",\"95220000\"]}"
            );
            assert_eq!(share.log, "share submitted (job bf)");
        }
        _ => panic!("no share was found"),
    }
    assert_eq!(miner.hashes, 8854);
}

#[test]
fn a_hash_is_judged_by_the_target_of_the_round() {
    let mut miner = Miner::new();
    let round = miner.begin_round(&sample_job(), &[], 1, 1_000_000);
    let mut hash = vec![0u8; 32];
    hash[26] = 0xff;
    hash[27] = 0xff;
    let share = round.share_with(&hash, "w").expect("a share");
    assert_eq!(
        share.submission,
        "{\"id\":100,\"method\":\"mining.submit\",\"params\":[\"w.rustminer1\",\"bf\",\"02\",\"504e86b9\",\"00000000\"]}"
    );
    hash[0] = 1;
    assert!(round.share_with(&hash, "w").is_none());
}

#[test]
fn a_round_ends_with_its_job() {
    let mut miner = Miner::new();
    let mut round = miner.begin_round(&sample_job(), &[], 4, u64::MAX);
    assert!(matches!(
        miner.try_nonce(&mut round, Some("other"), "w"),
        Attempt::Over
    ));
    assert!(matches!(miner.try_nonce(&mut round, None, "w"), Attempt::Over));
    assert_eq!(miner.hashes, 0);
    assert!(matches!(
        miner.try_nonce(&mut round, Some("bf"), "w"),
        Attempt::Hashed(None)
    ));
    assert_eq!(miner.hashes, 1);
}

#[test]
fn a_round_has_a_hundred_thousand_nonces() {
    let mut miner = Miner::new();
    let mut round = miner.begin_round(&sample_job(), &[], 4, u64::MAX);
    let mut tried = 0u32;
    while let Attempt::Hashed(_) = miner.try_nonce(&mut round, Some("bf"), "w") {
        tried += 1;
    }
    assert_eq!(tried, 100_000);
    assert_eq!(miner.hashes, 100_000);
}

#[test]
fn the_extra_nonce_wraps_and_is_at_most_eight_bytes() {
    let mut miner = Miner { hashes: 0, reported: 0, extranonce2: u64::MAX };
    let _ = miner.begin_round(&sample_job(), &[], 100, 1);
    assert_eq!(miner.extranonce2, 0);
}

#[test]
fn submissions_differ_by_nonce() {
    let line = |nonce: u32| submission("w", "j", &[1], &[2], nonce);
    assert_eq!(
        line(1),
        "{\"id\":100,\"method\":\"mining.submit\",\"params\":[\"w.rustminer1\",\"j\",\"01\",\"02\",\"01000000\"]}"
    );
    assert_ne!(line(1), line(256));
}

#[test]
fn reports_come_after_half_a_second() {
    let mut miner = Miner { hashes: 700, reported: 200, extranonce2: 1 };
    assert!(miner.report(500_000_000).is_none());
    assert_eq!(miner.reported, 200);
    let report = miner.report(500_000_001).expect("a report");
    assert_eq!(report.hashes, 700);
    assert_eq!(report.hashrate, 1000);
    assert_eq!(miner.report(600_000_000).expect("a report").hashrate, 0);
}

#[test]
fn one_processor_is_left_free() {
    assert_eq!(workers_for(0), 1);
    assert_eq!(workers_for(1), 1);
    assert_eq!(workers_for(2), 1);
    assert_eq!(workers_for(8), 7);
    assert_eq!(worker_count(), workers_for(num_cpus::get()));
}

#[test]
fn a_difficulty_not_above_zero_counts_as_one() {
    for difficulty in [0.0f64, -0.0, -1.0, -f64::MIN_POSITIVE, f64::MIN, f64::NEG_INFINITY] {
        assert_eq!(counted_difficulty(difficulty.to_bits()), 1.0f64.to_bits());
    }
    for difficulty in [1.0f64, 0.5, f64::from_bits(1), f64::MAX, f64::INFINITY, f64::NAN] {
        assert_eq!(counted_difficulty(difficulty.to_bits()), difficulty.to_bits());
    }
    assert_eq!(counted_difficulty((-f64::NAN).to_bits()), (-f64::NAN).to_bits());
}

#[test]
fn a_full_counter_matters_only_while_the_round_is_live() {
    let mut miner = Miner { hashes: u64::MAX, reported: 0, extranonce2: 1 };
    let mut round = miner.begin_round(&sample_job(), &[], 4, 1);
    assert!(round.is_live(Some("bf")));
    assert!(!round.is_live(Some("other")));
    assert!(!round.is_live(None));
    assert!(matches!(miner.try_nonce(&mut round, Some("other"), "w"), Attempt::Over));
    assert!(miner.report(500_000_000).is_none());
}

#[test]
fn rounds_submit_different_shares_until_the_extra_nonce_comes_round() {
    let mut miner = Miner::new();
    let mut lines: Vec<String> = Vec::new();
    for _ in 0..256 {
        let round = miner.begin_round(&sample_job(), &[], 1, 1);
        lines.push(round.share_with(&[0], "w").expect("a share").submission);
    }
    let round = miner.begin_round(&sample_job(), &[], 1, 1);
    assert_eq!(round.share_with(&[0], "w").expect("a share").submission, lines[0]);
    lines.sort();
    lines.dedup();
    assert_eq!(lines.len(), 256);
}

#[test]
fn reports_count_every_hash() {
    let mut miner = Miner::new();
    let mut counts = vec![0u64];
    for hashes in [3u32, 1, 5] {
        let mut round = miner.begin_round(&sample_job(), &[], 4, u64::MAX);
        for _ in 0..hashes {
            miner.try_nonce(&mut round, Some("bf"), "w");
        }
        let report = miner.report(600_000_000).expect("a report");
        assert_eq!(report.hashrate, 2 * (report.hashes - counts[counts.len() - 1]));
        counts.push(report.hashes);
    }
    assert_eq!(counts, vec![0, 3, 4, 9]);
}

fn pool_with(job: Option<Job>) -> PoolState {
    PoolState {
        job,
        difficulty: DIFFICULTY_ONE_BITS,
        extranonce1: hex("f000000f"),
        extranonce2_size: 4,
    }
}

#[test]
fn a_worker_waits_for_a_job() {
    let mut worker = Worker::new();
    assert_eq!(worker.phase(), WorkerPhase::Beginning);
    assert_eq!(worker.begin(&pool_with(None), 1), Some(200));
    assert_eq!(worker.phase(), WorkerPhase::Beginning);
    assert_eq!(worker.begin(&pool_with(Some(sample_job())), 1), None);
    assert_eq!(worker.phase(), WorkerPhase::Trying);
}

/// Tries nonces, with no report due, until a share is found.
fn next_share(worker: &mut Worker) -> (u32, String) {
    let mut hashed = 0u32;
    loop {
        let share = worker.try_nonce(Some("bf"), "1wallet");
        assert_eq!(worker.phase(), WorkerPhase::Reporting);
        hashed += 1;
        assert!(worker.report(500_000_000).is_none());
        assert_eq!(worker.phase(), WorkerPhase::Trying);
        if let Some(share) = share {
            assert_eq!(share.log, "share submitted (job bf)");
            return (hashed, share.submission);
        }
    }
}

#[test]
fn a_worker_submits_what_its_round_finds() {
    let mut worker = Worker::new();
    let pool = pool_with(Some(sample_job()));
    assert_eq!(worker.begin(&pool, 1), None);
    let (hashed, line) = next_share(&mut worker);
    assert_eq!(hashed, 8854);
    assert_eq!(
        line,
        "{\"id\":100,\"method\":\"mining.submit\",\"params\":[\"1wallet.rustminer1\",\"bf\",\"00000002\",\"504e86b9\",\"95220000\"]}"
    );
}

#[test]
fn a_worker_begins_again_when_the_job_changes() {
    let mut worker = Worker::new();
    let pool = pool_with(Some(sample_job()));
    assert_eq!(worker.begin(&pool, u64::MAX), None);
    assert!(worker.try_nonce(Some("bf"), "w").is_none());
    assert_eq!(worker.phase(), WorkerPhase::Reporting);
    let report = worker.report(600_000_000).expect("a report");
    assert_eq!((report.hashes, report.hashrate), (1, 2));
    assert!(worker.try_nonce(Some("c0"), "w").is_none());
    assert_eq!(worker.phase(), WorkerPhase::Beginning);
    assert_eq!(worker.begin(&pool, u64::MAX), None);
    assert!(worker.try_nonce(None, "w").is_none());
    assert_eq!(worker.phase(), WorkerPhase::Beginning);
    assert_eq!(worker.begin(&pool, u64::MAX), None);
    for _ in 0..2 {
        assert!(worker.try_nonce(Some("bf"), "w").is_none());
        assert!(worker.report(0).is_none());
    }
    assert!(worker.try_nonce(Some("bf"), "w").is_none());
    let report = worker.report(500_000_001).expect("a report");
    assert_eq!((report.hashes, report.hashrate), (4, 6));
}

#[test]
fn a_worker_begins_again_after_the_last_nonce() {
    let mut worker = Worker::new();
    assert_eq!(worker.begin(&pool_with(Some(sample_job())), u64::MAX), None);
    let mut hashed = 0u32;
    loop {
        assert!(worker.can_try(Some("bf")));
        worker.try_nonce(Some("bf"), "w");
        if worker.phase() != WorkerPhase::Reporting {
            break;
        }
        hashed += 1;
        assert!(worker.can_report(0));
        worker.report(0);
    }
    assert_eq!(hashed, 100_000);
    assert_eq!(worker.phase(), WorkerPhase::Beginning);
}

#[test]
fn a_worker_never_submits_a_line_twice() {
    let mut worker = Worker::new();
    let pool = pool_with(Some(sample_job()));
    let mut lines: Vec<String> = Vec::new();
    for _ in 0..2 {
        assert_eq!(worker.begin(&pool, 1), None);
        // At this difficulty a round may hold no share, so only a found one counts.
        while worker.phase() == WorkerPhase::Trying {
            if let Some(share) = worker.try_nonce(Some("bf"), "w") {
                lines.push(share.submission);
            }
            if worker.phase() == WorkerPhase::Reporting {
                worker.report(0);
            }
        }
    }
    assert!(!lines.is_empty());
    let found = lines.len();
    lines.sort();
    lines.dedup();
    assert_eq!(lines.len(), found);
}
