use asp::error::QueryError;
use asp::events::{after_page, commitment_matches, scan_page, EmittedEvent, PageScan, ScanStep};
use asp::felt::{decode_u256, leaf_index, Felt};
use asp::hex::{format_scalar, parse_scalar};
use asp::query::{
    allowance_call, balance_call, decode_bool, decode_scalar_text, decode_u256_response,
    initialized_slot, merkle_root_call, nullifier_spent_call, parse_contract_address, parse_felt,
    pool_token_slots, require_initialized, root_known_call,
};
use asp::selector::{get_selector, nested_slot_candidates, storage_base};
use asp::storage::{after_probe, exhausted_error, start_probes, ProbeOutcome, ProbeStep};

fn felt(s: &str) -> Felt {
    parse_scalar(s).expect("valid scalar")
}

fn event(keys: Vec<Felt>, data: Vec<Felt>) -> EmittedEvent {
    EmittedEvent { keys, data }
}

const DEPOSIT: &str = "0x9149d2123147c5f43d258257fef0b7b969db78269369ebcf5ebb9eef8592f2";

#[test]
fn parse_accepts_prefix_and_case() {
    let a = felt("0xAbC");
    let b = felt("abc");
    let c = felt("0x0x0abc");
    assert_eq!(a.bytes, b.bytes);
    assert_eq!(a.bytes, c.bytes);
    assert_eq!(a.bytes[30], 0x0a);
    assert_eq!(a.bytes[31], 0xbc);
    assert!(a.bytes[..30].iter().all(|b| *b == 0));
}

#[test]
fn parse_rejects_malformed_and_oversized() {
    assert!(parse_scalar("0xzz").is_none());
    assert!(parse_scalar(&"1".repeat(65)).is_none());
    // the modulus itself is out of range, one below it is the largest element
    assert!(parse_scalar("0x800000000000011000000000000000000000000000000000000000000000001").is_none());
    assert!(parse_scalar("0x800000000000011000000000000000000000000000000000000000000000000").is_some());
    assert!(matches!(parse_felt("0xg"), Err(QueryError::InvalidInput(t)) if t == "0xg"));
    assert!(matches!(
        parse_contract_address("nope"),
        Err(QueryError::InvalidConfiguration(t)) if t == "nope"
    ));
}

#[test]
fn empty_hex_is_zero() {
    assert!(felt("0x").is_zero());
    assert!(felt("").is_zero());
}

#[test]
fn scalar_round_trip() {
    for h in ["0x0", "0x00ab", "ABCDEF", "0x0x12", "0x800000000000011000000000000000000000000000000000000000000000000"] {
        let f = felt(h);
        let text = format_scalar(&f);
        let g = felt(&text);
        assert_eq!(f.bytes, g.bytes);
    }
}

#[test]
fn format_is_shortest_lowercase() {
    assert_eq!(format_scalar(&felt("0x000ABC")), "0xabc");
    assert_eq!(format_scalar(&felt("0x0")), "0x0");
    assert_eq!(
        format_scalar(&felt(&format!("0x{}", "f".repeat(62)))),
        format!("0x{}", "f".repeat(62))
    );
}

#[test]
fn decode_u256_halves_are_independent() {
    let zero = felt("0x0");
    let max = felt("0xffffffffffffffffffffffffffffffff");
    let one = felt("0x1");
    assert_eq!(decode_u256(&zero, &zero), Some((0, 0)));
    assert_eq!(decode_u256(&max, &zero), Some((u128::MAX, 0)));
    assert_eq!(decode_u256(&zero, &one), Some((0, 1)));
}

#[test]
fn decode_u256_refuses_oversized_half() {
    let big = felt("0x100000000000000000000000000000000");
    let zero = felt("0x0");
    assert_eq!(decode_u256(&big, &zero), None);
    assert_eq!(decode_u256(&zero, &big), None);
}

#[test]
fn leaf_index_takes_low_four_bytes() {
    assert_eq!(leaf_index(&felt("0x2a")), 42);
    assert_eq!(leaf_index(&felt("0x1_00000007".replace('_', "").as_str())), 7);
}

#[test]
fn selector_is_deterministic() {
    let a = get_selector("balance_of");
    let b = get_selector("balance_of");
    assert_eq!(a.bytes, b.bytes);
    assert!(!a.is_zero());
    assert_ne!(get_selector("allowance").bytes, a.bytes);
}

#[test]
fn selector_of_transfer() {
    let expected = felt("0x83afd3f4caedc6eebf44246fe54e38c95e3179a5ec9ea81740eca5b482d12e");
    assert_eq!(get_selector("transfer").bytes, expected.bytes);
    // the selector of a name is the keccak of its bytes
    assert_eq!(storage_base("transfer").bytes, expected.bytes);
}

#[test]
fn non_ascii_selector_is_zero() {
    assert!(get_selector("dépôt").is_zero());
}

#[test]
fn slot_candidates_hash_then_offset() {
    let base = storage_base("pool");
    let first = pool_token_slots(false);
    let second = pool_token_slots(true);
    assert_eq!(first.len(), 2);
    assert_eq!(first[1].bytes, base.bytes);
    assert_ne!(first[0].bytes, base.bytes);
    assert_ne!(first[0].bytes, second[0].bytes);
    // base + 1
    let plus_one = format_scalar(&second[1]);
    let base_text = format_scalar(&base);
    assert_ne!(plus_one, base_text);
    let generic = nested_slot_candidates("pool", "token1", 1);
    assert_eq!(generic[0].bytes, second[0].bytes);
    assert_eq!(generic[1].bytes, second[1].bytes);
    let small = nested_slot_candidates("pool", "token1", 0);
    assert_eq!(small[1].bytes, base.bytes);
}

#[test]
fn field_addition_carries() {
    // the base slot of `pool` plus one differs from the base in its value by exactly one
    let base = storage_base("pool");
    let second = pool_token_slots(true);
    let mut b = base.bytes;
    let mut i = 31;
    loop {
        let (v, carry) = b[i].overflowing_add(1);
        b[i] = v;
        if !carry {
            break;
        }
        i -= 1;
    }
    assert_eq!(second[1].bytes, b);
}

#[test]
fn initialized_slot_is_keccak_of_name() {
    assert_eq!(initialized_slot().bytes, storage_base("initialized").bytes);
    assert!(!initialized_slot().is_zero());
}

#[test]
fn probe_short_circuits_on_nonzero() {
    assert!(matches!(start_probes(2), ProbeStep::Probe { index: 0, timeout_secs: 5 }));
    let v = felt("0x1234");
    match after_probe(2, 0, &ProbeOutcome::Value(v)) {
        ProbeStep::Found(f) => assert_eq!(f.bytes, v.bytes),
        other => panic!("expected a found value, got {:?}", other),
    }
}

#[test]
fn probe_falls_through_zero_error_and_timeout() {
    let zero = felt("0x0");
    assert!(matches!(
        after_probe(2, 0, &ProbeOutcome::Value(zero)),
        ProbeStep::Probe { index: 1, timeout_secs: 3 }
    ));
    assert!(matches!(
        after_probe(2, 0, &ProbeOutcome::Failed),
        ProbeStep::Probe { index: 1, timeout_secs: 3 }
    ));
    assert!(matches!(
        after_probe(2, 0, &ProbeOutcome::TimedOut),
        ProbeStep::Probe { index: 1, timeout_secs: 3 }
    ));
}

#[test]
fn probes_exhausted_lists_every_candidate() {
    let zero = felt("0x0");
    let candidates = vec![felt("0xabc"), felt("0x1")];
    let mut step = start_probes(candidates.len());
    let mut issued = Vec::new();
    while let ProbeStep::Probe { index, .. } = step {
        issued.push(index);
        step = after_probe(candidates.len(), index, &ProbeOutcome::Value(zero));
    }
    assert_eq!(issued, vec![0, 1]);
    assert!(matches!(step, ProbeStep::Exhausted));
    match exhausted_error(&candidates) {
        QueryError::AllCandidatesExhausted(list) => {
            assert_eq!(list, vec!["0xabc".to_string(), "0x1".to_string()])
        }
        other => panic!("unexpected {:?}", other),
    }
    assert!(matches!(start_probes(0), ProbeStep::Exhausted));
}

#[test]
fn commitment_padding_is_ignored() {
    assert!(commitment_matches(&[0, 0, 0, 5], &[5]));
    assert!(commitment_matches(&[1, 2], &[0, 0, 1, 2]));
    assert!(!commitment_matches(&[1, 2], &[2, 1]));
    assert!(commitment_matches(&[], &[0, 0]));
}

#[test]
fn scan_requires_selector_and_three_fields() {
    let sel = felt(DEPOSIT);
    let target = felt("0x77");
    let other = felt("0x99");
    let events = vec![
        // selector missing
        event(vec![other], vec![target, felt("0x1"), felt("0x0")]),
        // payload too short
        event(vec![sel], vec![target, felt("0x2")]),
        // selector not in first key position, matches
        event(vec![other, sel], vec![target, felt("0x3"), felt("0x0")]),
        event(vec![sel], vec![target, felt("0x4"), felt("0x0")]),
    ];
    let scan = scan_page(&events, &sel, &target);
    assert_eq!(scan.leaf_index, Some(3));
    assert_eq!(scan.events_searched, 3);
    assert_eq!(scan.deposits_seen, 1);
}

#[test]
fn scan_page_without_match() {
    let sel = felt(DEPOSIT);
    let events = vec![event(vec![sel], vec![felt("0x5"), felt("0x1"), felt("0x0")])];
    let scan = scan_page(&events, &sel, &felt("0x6"));
    assert_eq!(scan.leaf_index, None);
    assert_eq!(scan.events_searched, 1);
    assert_eq!(scan.deposits_seen, 1);
}

#[test]
fn pagination_stops_when_cursor_ends() {
    let sel = felt(DEPOSIT);
    let target = felt("0x77");
    let pages: Vec<(Vec<EmittedEvent>, Option<String>)> = vec![
        (vec![], Some("c1".to_string())),
        (vec![event(vec![sel], vec![felt("0x1"), felt("0x0"), felt("0x0")])], Some("c2".to_string())),
        (vec![], None),
    ];
    let mut fetches = 0;
    let mut cursors = Vec::new();
    let mut page = 0;
    let outcome = loop {
        fetches += 1;
        let (events, cursor) = &pages[page];
        let scan = scan_page(events, &sel, &target);
        match after_page(&scan, cursor.clone()) {
            ScanStep::Found(i) => break Some(i),
            ScanStep::NextPage(c) => {
                cursors.push(c);
                page += 1;
            }
            ScanStep::NotFound => break None,
        }
    };
    assert_eq!(fetches, 3);
    assert_eq!(cursors, vec!["c1".to_string(), "c2".to_string()]);
    assert_eq!(outcome, None);
}

#[test]
fn find_commitment_in_second_page() {
    let sel = felt(DEPOSIT);
    let target = felt("0x0000abcdef");
    let pages: Vec<(Vec<EmittedEvent>, Option<String>)> = vec![
        (vec![event(vec![sel], vec![felt("0x1"), felt("0x10"), felt("0x0")])], Some("next".to_string())),
        (vec![event(vec![sel], vec![felt("0xabcdef"), felt("0x11"), felt("0x0")])], None),
    ];
    let mut page = 0;
    let found = loop {
        let (events, cursor) = &pages[page];
        let scan = scan_page(events, &sel, &target);
        match after_page(&scan, cursor.clone()) {
            ScanStep::Found(i) => break Some(i),
            ScanStep::NextPage(_) => page += 1,
            ScanStep::NotFound => break None,
        }
    };
    assert_eq!(found, Some(0x11));
    assert_eq!(page, 1);
}

#[test]
fn after_page_found_wins_over_cursor() {
    let scan = PageScan { leaf_index: Some(9), events_searched: 1, deposits_seen: 1 };
    assert!(matches!(after_page(&scan, Some("c".to_string())), ScanStep::Found(9)));
}

#[test]
fn token_balance_low_five() {
    let r = decode_u256_response(&vec![felt("0x5"), felt("0x0")]);
    assert_eq!(r.unwrap(), (5, 0));
}

#[test]
fn token_balance_short_response() {
    assert!(matches!(decode_u256_response(&vec![felt("0x5")]), Err(QueryError::ProtocolMismatch)));
    let big = felt("0x100000000000000000000000000000000");
    assert!(matches!(
        decode_u256_response(&vec![big, felt("0x0")]),
        Err(QueryError::ProtocolMismatch)
    ));
}

#[test]
fn nullifier_spent_flags() {
    assert_eq!(decode_bool(&vec![felt("0x0")]).unwrap(), false);
    assert_eq!(decode_bool(&vec![felt("0x1")]).unwrap(), true);
    assert!(matches!(decode_bool(&vec![]), Err(QueryError::EmptyResponse)));
}

#[test]
fn merkle_root_text() {
    assert_eq!(decode_scalar_text(&vec![felt("0x00ff")]).unwrap(), "0xff");
    assert!(matches!(decode_scalar_text(&vec![]), Err(QueryError::EmptyResponse)));
}

#[test]
fn call_requests_carry_selector_and_arguments() {
    let pool = felt("0x123");
    let root = merkle_root_call(&pool);
    assert_eq!(root.contract.bytes, pool.bytes);
    assert_eq!(root.selector.bytes, get_selector("get_merkle_root").bytes);
    assert!(root.calldata.is_empty());

    let n = nullifier_spent_call(&pool, "0x42").unwrap();
    assert_eq!(n.selector.bytes, get_selector("is_nullifier_spent").bytes);
    assert_eq!(n.calldata[0].bytes, felt("0x42").bytes);
    assert!(matches!(nullifier_spent_call(&pool, "xyz"), Err(QueryError::InvalidInput(_))));

    let k = root_known_call(&pool, "0x43").unwrap();
    assert_eq!(k.selector.bytes, get_selector("is_root_known").bytes);

    let b = balance_call("0x10", "0x20").unwrap();
    assert_eq!(b.contract.bytes, felt("0x10").bytes);
    assert_eq!(b.selector.bytes, get_selector("balance_of").bytes);
    assert_eq!(b.calldata[0].bytes, felt("0x20").bytes);

    let a = allowance_call("0x10", "0x20", "0x30").unwrap();
    assert_eq!(a.selector.bytes, get_selector("allowance").bytes);
    assert_eq!(a.calldata.len(), 2);
    assert_eq!(a.calldata[1].bytes, felt("0x30").bytes);
    assert!(allowance_call("0x10", "0x20", "bad!").is_err());
}

#[test]
fn uninitialized_pool_fails_fast() {
    assert!(matches!(require_initialized(&felt("0x0")), Err(QueryError::NotInitialized)));
    assert!(require_initialized(&felt("0x1")).is_ok());
}
