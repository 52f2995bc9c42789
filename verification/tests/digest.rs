use bench_core::digest::{
    cache_line, cache_payload, forced_workers, hex_lower, line_tag, parse_cache_line, sha256_hex,
    tag_of, workers_for, DigestMemo, FileKey, StreamedDigest, CACHE_FORMAT, MAX_WORKERS,
};
use bench_core::pool::gather_pool;
use sha2::{Digest, Sha256};

fn reference_sha256(bytes: &[u8]) -> [u8; 32] {
    let mut h = Sha256::new();
    h.update(bytes);
    h.finalize().into()
}

#[test]
fn a_cache_line_round_trips() {
    let key = FileKey {
        dev: 16777232,
        ino: 12345678901234,
        mtime_s: 1789000000,
        mtime_ns: 123456789,
        size: 105_000_000_000,
    };
    let digest = reference_sha256(b"weights-shard");
    let line = cache_line(&key, &digest);
    assert!(line.ends_with('\n'));
    assert_eq!(parse_cache_line(&line), Some((key, digest)));
}

#[test]
fn any_single_character_corruption_drops_the_line() {
    let key = FileKey { dev: 1, ino: 2, mtime_s: 3, mtime_ns: 4, size: 5 };
    let line = cache_line(&key, &reference_sha256(b"x"));
    let intact: Vec<char> = line.trim_end().chars().collect();
    for i in 0..intact.len() {
        let mut damaged = intact.clone();
        damaged[i] = if damaged[i] == 'a' { 'b' } else { 'a' };
        let damaged: String = damaged.into_iter().collect();
        assert_eq!(
            parse_cache_line(&damaged),
            None,
            "a line damaged at {i} must be dropped: {damaged}"
        );
    }
    assert_eq!(parse_cache_line(""), None);
    assert_eq!(parse_cache_line("v1 not a real line"), None);
}

// ---- further cases ----

#[test]
fn sha256_hex_matches_the_standard_vectors() {
    assert_eq!(
        sha256_hex(b"abc"),
        "ba7816bf8f01cfea414140de5dae2223b00361a396177a9cb410ff61f20015ad"
    );
    assert_eq!(
        sha256_hex(b""),
        "e3b0c44298fc1c149afbf4c8996fb92427ae41e4649b934ca495991b7852b855"
    );
    assert_eq!(sha256_hex(b"weights-shard"), hex_lower(&reference_sha256(b"weights-shard")));
}

#[test]
fn hex_is_lower_case_two_digits_per_byte() {
    assert_eq!(hex_lower(&[0x00, 0x0f, 0xa0, 0xff]), "000fa0ff");
    assert_eq!(hex_lower(&[]), "");
}

#[test]
fn the_tag_is_the_first_sixteen_hex_of_the_payload_digest() {
    let payload = "v1 1 2 3 4 5 00";
    let want = &hex_lower(&reference_sha256(payload.as_bytes()))[..16];
    assert_eq!(line_tag(payload), want);
    assert_eq!(tag_of(&reference_sha256(payload.as_bytes())), want);
    assert_eq!(line_tag(payload).len(), 16);
}

#[test]
fn a_cache_line_has_the_documented_layout() {
    let key = FileKey { dev: 7, ino: 8, mtime_s: -9, mtime_ns: 10, size: 11 };
    let digest = [0xabu8; 32];
    let payload = cache_payload(&key, &digest);
    assert_eq!(payload, format!("{CACHE_FORMAT} 7 8 -9 10 11 {}", "ab".repeat(32)));
    let line = cache_line(&key, &digest);
    assert_eq!(line, format!("{payload} {}\n", line_tag(&payload)));
    assert_eq!(parse_cache_line(&line), Some((key, digest)));
    let extreme = FileKey { dev: u64::MAX, ino: 0, mtime_s: i64::MIN, mtime_ns: i64::MAX, size: u64::MAX };
    assert_eq!(parse_cache_line(&cache_line(&extreme, &digest)), Some((extreme, digest)));
}

#[test]
fn a_line_that_is_not_intact_is_dropped() {
    let key = FileKey { dev: 1, ino: 2, mtime_s: 3, mtime_ns: 4, size: 5 };
    let digest = reference_sha256(b"x");
    let hex = hex_lower(&digest);
    let with_tag = |payload: &str| format!("{payload} {}", line_tag(payload));
    assert_eq!(parse_cache_line(&with_tag(&format!("v2 1 2 3 4 5 {hex}"))), None);
    assert_eq!(parse_cache_line(&with_tag(&format!("v1 1 2 3 4 {hex}"))), None);
    assert_eq!(parse_cache_line(&with_tag(&format!("v1 1 2 3 4 5 {hex} 6"))), None);
    assert_eq!(parse_cache_line(&with_tag(&format!("v1 -1 2 3 4 5 {hex}"))), None);
    assert_eq!(parse_cache_line(&with_tag(&format!("v1 1 2 3 4 5 {}", &hex[..62]))), None);
    assert_eq!(parse_cache_line(&with_tag(&format!("v1 1 2 3 4 5 {}zz", &hex[..62]))), None);
    assert_eq!(
        parse_cache_line(&with_tag(&format!("v1 18446744073709551616 2 3 4 5 {hex}"))),
        None
    );
    assert_eq!(
        parse_cache_line(&with_tag(&format!("v1 1 2 3 4 5 {hex}"))),
        Some((key, digest))
    );
    assert_eq!(
        parse_cache_line(&format!("{}\r\n", with_tag(&format!("v1 1 2 3 4 5 {hex}")))),
        Some((key, digest))
    );
}

#[test]
fn the_memo_answers_what_was_recorded_last() {
    let a = FileKey { dev: 1, ino: 1, mtime_s: 1, mtime_ns: 1, size: 5 };
    let b = FileKey { dev: 1, ino: 1, mtime_s: 1, mtime_ns: 2, size: 5 };
    let mut memo = DigestMemo::new();
    assert_eq!(memo.get(&a), None);
    memo.put(a, [1; 32]);
    assert_eq!(memo.get(&a), Some([1; 32]));
    assert_eq!(memo.get(&b), None, "a rewrite (new mtime) misses");
    memo.put(a, [2; 32]);
    assert_eq!(memo.get(&a), Some([2; 32]));
    assert_eq!(memo.recall(Some(a)), Some(([2; 32], 5)));
    assert_eq!(memo.recall(None), None);
    memo.clear();
    assert_eq!(memo.get(&a), None);
}

#[test]
fn only_a_digest_of_the_promised_length_is_remembered() {
    let key = FileKey { dev: 3, ino: 4, mtime_s: 5, mtime_ns: 6, size: 10 };
    let mut memo = DigestMemo::new();
    assert_eq!(memo.remember(Some(key), [9; 32], 11), None, "a file that grew is not memoised");
    assert_eq!(memo.get(&key), None);
    let line = memo.remember(Some(key), [9; 32], 10).expect("the promised length was read");
    assert_eq!(line, cache_line(&key, &[9; 32]));
    assert_eq!(memo.get(&key), Some([9; 32]));
    assert_eq!(memo.remember(None, [9; 32], 10), None);
    let recorded = memo.record(key, [8; 32]);
    assert_eq!(parse_cache_line(&recorded), Some((key, [8; 32])));
}

#[test]
fn absorbed_sidecar_entries_load_in_order() {
    let a = FileKey { dev: 1, ino: 2, mtime_s: 3, mtime_ns: 4, size: 5 };
    let b = FileKey { dev: 6, ino: 7, mtime_s: 8, mtime_ns: 9, size: 10 };
    let c = FileKey { dev: 0, ino: 0, mtime_s: 0, mtime_ns: 0, size: 0 };
    let mut memo = DigestMemo::new();
    memo.put(c, [3; 32]);
    memo.absorb(&vec![(a, [1; 32]), (b, [2; 32]), (a, [4; 32])]);
    assert_eq!(memo.get(&a), Some([4; 32]), "the later entry wins");
    assert_eq!(memo.get(&b), Some([2; 32]));
    assert_eq!(memo.get(&c), Some([3; 32]), "an unmentioned key keeps its answer");
}

#[test]
fn the_worker_count_is_bounded_by_the_cap_and_the_file_count() {
    assert_eq!(workers_for(16, 100), MAX_WORKERS);
    assert_eq!(workers_for(4, 100), 4);
    assert_eq!(workers_for(16, 3), 3);
    assert_eq!(workers_for(16, 0), 1);
    assert_eq!(workers_for(0, 10), 1);
    assert_eq!(forced_workers(0, 10), 1);
    assert_eq!(forced_workers(4, 10), 4);
    assert_eq!(forced_workers(40, 10), 10);
    assert_eq!(forced_workers(40, 0), 1);
}

#[test]
fn the_pool_answers_in_index_order_whatever_the_split() {
    let e = |i: usize| (i, [i as u8; 32], i as u64 * 10);
    let serial = gather_pool(&vec![(0..5).map(e).collect()], &vec![None]).unwrap();
    assert_eq!(serial, (0..5).map(e).collect::<Vec<_>>());
    let split = gather_pool(
        &vec![vec![e(3), e(0)], vec![e(4), e(1)], vec![e(2)]],
        &vec![None, None, None],
    )
    .unwrap();
    assert_eq!(split, serial);
    assert_eq!(gather_pool(&vec![], &vec![]).unwrap(), vec![]);
}

#[test]
fn the_pool_reports_the_first_failing_index() {
    let e = |i: usize| (i, [0u8; 32], 0u64);
    assert_eq!(
        gather_pool(&vec![vec![e(0)], vec![e(2)], vec![]], &vec![None, Some(3), Some(1)]),
        Err(1)
    );
    assert_eq!(gather_pool(&vec![vec![e(0)]], &vec![Some(1)]), Err(1));
}

#[test]
fn a_streamed_digest_is_the_one_shot_digest_across_chunk_boundaries() {
    let body: Vec<u8> = (0..(64 * 3 + 17)).map(|i| (i % 251) as u8).collect();
    for cut in [0usize, 1, 63, 64, 65, 128, body.len()] {
        let stream = StreamedDigest::new().update(&body[..cut]).update(&body[cut..]);
        assert_eq!(stream.len(), body.len() as u64);
        let (digest, size) = stream.finish();
        assert_eq!(size, body.len() as u64);
        assert_eq!(digest, reference_sha256(&body));
        assert_eq!(hex_lower(&digest), sha256_hex(&body));
    }
    let (empty, size) = StreamedDigest::new().finish();
    assert_eq!(size, 0);
    assert_eq!(hex_lower(&empty), sha256_hex(b""));
}

#[test]
fn a_cold_hash_is_remembered_and_recalled_warm() {
    let key = FileKey { dev: 9, ino: 10, mtime_s: 11, mtime_ns: 12, size: 5 };
    let mut memo = DigestMemo::new();
    let (cold, size, line) = memo.finish_file(Some(key), StreamedDigest::new().update(b"he").update(b"llo"));
    assert_eq!(cold, reference_sha256(b"hello"));
    assert_eq!(size, 5);
    assert_eq!(memo.recall(Some(key)), Some((cold, 5)), "the warm answer is the cold one");
    let line = line.expect("the promised length was read");
    let mut fresh = DigestMemo::new();
    fresh.absorb(&vec![parse_cache_line(&line).unwrap()]);
    assert_eq!(fresh.recall(Some(key)), Some((cold, 5)), "the sidecar answer is the cold one");

    let grown = FileKey { size: 4, ..key };
    let mut other = DigestMemo::new();
    let (_, _, none) = other.finish_file(Some(grown), StreamedDigest::new().update(b"hello"));
    assert!(none.is_none());
    assert_eq!(other.recall(Some(grown)), None, "a length mismatch is not memoised");
}

#[test]
fn keys_sharing_an_inode_stay_apart() {
    let a = FileKey { dev: 1, ino: 7, mtime_s: 0, mtime_ns: 0, size: 1 };
    let b = FileKey { dev: 2, ino: 7, mtime_s: 0, mtime_ns: 0, size: 1 };
    let mut memo = DigestMemo::new();
    memo.put(a, [1; 32]);
    memo.put(b, [2; 32]);
    assert_eq!(memo.get(&a), Some([1; 32]));
    assert_eq!(memo.get(&b), Some([2; 32]));
}

#[test]
fn a_large_sidecar_loads_quickly() {
    let entries: Vec<(FileKey, [u8; 32])> = (0..50_000u64)
        .map(|i| (FileKey { dev: 1, ino: i, mtime_s: 2, mtime_ns: 3, size: i }, [(i % 251) as u8; 32]))
        .collect();
    let mut memo = DigestMemo::new();
    memo.absorb(&entries);
    for (k, d) in entries.iter().step_by(997) {
        assert_eq!(memo.get(k), Some(*d));
    }
}
