use vstd::prelude::*;

use crate::felt::{be_nat, leaf_index, Felt};

verus! {

/// Events fetched per round trip.
pub const EVENT_PAGE_SIZE: u64 = 1000;

/// One event emitted by the contract: its keys and its payload.
pub struct EmittedEvent {
    pub keys: Vec<Felt>,
    pub data: Vec<Felt>,
}

pub open spec fn has_key(e: EmittedEvent, key: Felt) -> bool {
    exists|i: int| 0 <= i < e.keys@.len() && #[trigger] e.keys@[i].bytes@ == key.bytes@
}

/// A deposit: the selector stands among the keys (at any position, for nested
/// events) and the payload has at least three fields.
pub open spec fn is_deposit(e: EmittedEvent, selector: Felt) -> bool {
    has_key(e, selector) && e.data@.len() >= 3
}

/// A deposit whose commitment, read as an unsigned integer, is the target.
pub open spec fn deposit_matches(e: EmittedEvent, selector: Felt, target: Seq<u8>) -> bool {
    is_deposit(e, selector) && be_nat(e.data@[0].bytes@) == be_nat(target)
}

/// The position of the first matching deposit at or after `i`.
pub open spec fn match_from(
    events: Seq<EmittedEvent>,
    selector: Felt,
    target: Seq<u8>,
    i: nat,
) -> Option<nat>
    decreases events.len() - i,
{
    if i >= events.len() {
        None
    } else if deposit_matches(events[i as int], selector, target) {
        Some(i)
    } else {
        match_from(events, selector, target, i + 1)
    }
}

/// The leaf index a deposit records: the low four bytes of its second field.
pub open spec fn recorded_leaf(e: EmittedEvent) -> u32 {
    be_nat(e.data@[1].bytes@.subrange(28, 32)) as u32
}

/// What a page of events yields: the leaf index of the first matching
/// deposit, if any, and how many events and deposits were looked at.
pub struct PageScan {
    pub leaf_index: Option<u32>,
    pub events_searched: usize,
    pub deposits_seen: usize,
}

/// What the scan does after a page.
#[derive(Debug)]
pub enum ScanStep {
    /// The commitment was found at this leaf index: stop.
    Found(u32),
    /// Fetch the page that this cursor continues to.
    NextPage(String),
    /// The cursor is exhausted and the commitment was not seen.
    NotFound,
}

/// Relies on num-bigint's `BigUint::from_bytes_be`, which reads bytes as one
/// big-endian unsigned integer, and on `BigUint`'s equality of values.
#[verifier::external_body]
fn same_unsigned(a: &[u8], b: &[u8]) -> (r: bool)
    ensures
        r == (be_nat(a@) == be_nat(b@)),
{
    num_bigint::BigUint::from_bytes_be(a) == num_bigint::BigUint::from_bytes_be(b)
}

/// Compares two commitments as unsigned integers, whatever their zero padding.
pub fn commitment_matches(target: &[u8], candidate: &[u8]) -> (r: bool)
    ensures
        r == (be_nat(target@) == be_nat(candidate@)),
{
    same_unsigned(target, candidate)
}

/// Extra leading zero bytes do not change whether a commitment matches.
pub proof fn lemma_commitment_padding(zeros: Seq<u8>, commitment: Seq<u8>, target: Seq<u8>)
    requires
        forall|i: int| 0 <= i < zeros.len() ==> zeros[i] == 0,
    ensures
        (be_nat(target) == be_nat(zeros + commitment)) == (be_nat(target) == be_nat(commitment)),
{
    crate::felt::lemma_be_nat_leading_zeros(zeros, commitment);
}

fn carries_key(e: &EmittedEvent, key: &Felt) -> (r: bool)
    ensures
        r == has_key(*e, *key),
{
    let mut i: usize = 0;
    while i < e.keys.len()
        invariant
            i <= e.keys@.len(),
            forall|j: int| 0 <= j < i ==> e.keys@[j].bytes@ != key.bytes@,
        decreases e.keys@.len() - i,
    {
        if e.keys[i].same(key) {
            return true;
        }
        i += 1;
    }
    false
}

/// Looks through one page for a deposit of the target commitment and returns
/// the leaf index of the first one found; the rest of the page is not read.
pub fn scan_page(events: &Vec<EmittedEvent>, deposit_selector: &Felt, target: &Felt) -> (r: PageScan)
    ensures
        r.leaf_index == (match match_from(events@, *deposit_selector, target.bytes@, 0) {
            Some(i) => Some(recorded_leaf(events@[i as int])),
            None => None,
        }),
        r.deposits_seen <= r.events_searched <= events@.len(),
        r.events_searched == (match match_from(events@, *deposit_selector, target.bytes@, 0) {
            Some(i) => i + 1,
            None => events@.len(),
        }),
{
    let mut searched: usize = 0;
    let mut deposits: usize = 0;
    let mut i: usize = 0;
    while i < events.len()
        invariant
            i <= events@.len(),
            searched == i,
            deposits <= searched,
            match_from(events@, *deposit_selector, target.bytes@, 0) == match_from(
                events@,
                *deposit_selector,
                target.bytes@,
                i as nat,
            ),
        decreases events@.len() - i,
    {
        let e = &events[i];
        searched += 1;
        if carries_key(e, deposit_selector) && e.data.len() >= 3 {
            deposits += 1;
            if commitment_matches(target.bytes.as_slice(), e.data[0].bytes.as_slice()) {
                let leaf = leaf_index(&e.data[1]);
                return PageScan {
                    leaf_index: Some(leaf),
                    events_searched: searched,
                    deposits_seen: deposits,
                };
            }
        }
        i += 1;
    }
    PageScan { leaf_index: None, events_searched: searched, deposits_seen: deposits }
}

/// The step after a page: stop on a match, else follow the cursor, else end.
pub fn after_page(scan: &PageScan, cursor: Option<String>) -> (r: ScanStep)
    ensures
        scan.leaf_index matches Some(x) ==> r == ScanStep::Found(x),
        scan.leaf_index is None && cursor is Some ==> (r matches ScanStep::NextPage(c)
            && c@ == cursor->Some_0@),
        scan.leaf_index is None && cursor is None ==> r == ScanStep::NotFound,
{
    match scan.leaf_index {
        Some(x) => ScanStep::Found(x),
        None => match cursor {
            Some(c) => ScanStep::NextPage(c),
            None => ScanStep::NotFound,
        },
    }
}

/// Pages fetched from page `k` on, when page `i` yields `found[i]` and has a
/// continuation cursor exactly when `more[i]`.
pub open spec fn pages_fetched(found: Seq<Option<u32>>, more: Seq<bool>, k: nat) -> nat
    decreases found.len() - k,
{
    if k >= found.len() || k >= more.len() {
        0
    } else if found[k as int] is Some || !more[k as int] {
        1
    } else {
        1 + pages_fetched(found, more, k + 1)
    }
}

/// The leaf index that scan ends with.
pub open spec fn scan_outcome(found: Seq<Option<u32>>, more: Seq<bool>, k: nat) -> Option<u32>
    decreases found.len() - k,
{
    if k >= found.len() || k >= more.len() {
        None
    } else if found[k as int] is Some || !more[k as int] {
        found[k as int]
    } else {
        scan_outcome(found, more, k + 1)
    }
}

/// With no match, a scan whose pages carry a cursor up to the last one fetches
/// every page exactly once, then stops with nothing found.
pub proof fn lemma_pagination_terminates(found: Seq<Option<u32>>, more: Seq<bool>, k: nat)
    requires
        found.len() == more.len(),
        k < found.len(),
        forall|i: int| 0 <= i < found.len() ==> found[i] is None,
        forall|i: int| 0 <= i < found.len() - 1 ==> more[i],
        !more[found.len() - 1],
    ensures
        pages_fetched(found, more, k) == found.len() - k,
        scan_outcome(found, more, k) is None,
    decreases found.len() - k,
{
    if k + 1 < found.len() {
        lemma_pagination_terminates(found, more, k + 1);
    }
}

/// A match on a page ends the scan there: no later page is fetched.
pub proof fn lemma_match_stops_scan(found: Seq<Option<u32>>, more: Seq<bool>, k: nat)
    requires
        found.len() == more.len(),
        k < found.len(),
        found[k as int] is Some,
    ensures
        pages_fetched(found, more, k) == 1,
        scan_outcome(found, more, k) == found[k as int],
{
}

} // verus!
