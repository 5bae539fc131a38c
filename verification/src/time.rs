//! Logical times of operations: an operation is identified by the header of
//! the history node that carries it (absent for the initial state) and by its
//! position inside that node.

use vstd::prelude::*;

verus! {

/// Length in bytes of the hash that identifies a history node.
pub const HASH_LEN: usize = 32;

/// Identifier of an operation: the hash of the header that carries it
/// (`None` for operations of the initial state) and its position there.
#[derive(Clone, Copy, Debug, PartialEq, Eq, Hash)]
pub struct Time {
    pub header: Option<[u8; 32]>,
    pub position: u8,
}

/// Lexicographic order on header hashes: they differ first at an index
/// where `a` holds the smaller byte.
pub open spec fn hash_lt(a: [u8; 32], b: [u8; 32]) -> bool {
    exists|i: int|
        #![trigger a@[i], b@[i]]
        0 <= i < 32 && a@[i] < b@[i] && (forall|j: int| 0 <= j < i ==> a@[j] == b@[j])
}

/// The order on times: first by header (no header before any header,
/// headers by their hash), then by position.
pub open spec fn time_lt(a: Time, b: Time) -> bool {
    match (a.header, b.header) {
        (None, None) => a.position < b.position,
        (None, Some(_)) => true,
        (Some(_), None) => false,
        (Some(x), Some(y)) => if x == y {
            a.position < b.position
        } else {
            hash_lt(x, y)
        },
    }
}

proof fn lemma_hash_eq_from_bytes(a: [u8; 32], b: [u8; 32])
    requires
        forall|j: int| 0 <= j < 32 ==> a@[j] == b@[j],
    ensures
        a == b,
{
    broadcast use vstd::array::group_array_axioms;

    assert(a =~= b);
}

proof fn lemma_hash_first_diff(a: [u8; 32], b: [u8; 32], k: int)
    requires
        0 <= k <= 32,
        forall|j: int| 0 <= j < k ==> a@[j] == b@[j],
        a != b,
    ensures
        hash_lt(a, b) || hash_lt(b, a),
    decreases 32 - k,
{
    if k == 32 {
        lemma_hash_eq_from_bytes(a, b);
    } else if a@[k] == b@[k] {
        lemma_hash_first_diff(a, b, k + 1);
    } else if a@[k] < b@[k] {
        assert(hash_lt(a, b));
    } else {
        assert(hash_lt(b, a));
    }
}

/// Header hashes are totally ordered.
pub proof fn lemma_hash_lt_total(a: [u8; 32], b: [u8; 32])
    ensures
        a != b ==> hash_lt(a, b) || hash_lt(b, a),
        !(hash_lt(a, b) && hash_lt(b, a)),
        !hash_lt(a, a),
{
    if a != b {
        lemma_hash_first_diff(a, b, 0);
    }
    if hash_lt(a, b) && hash_lt(b, a) {
        let i = choose|i: int|
            #![trigger a@[i], b@[i]]
            0 <= i < 32 && a@[i] < b@[i] && (forall|j: int| 0 <= j < i ==> a@[j] == b@[j]);
        let k = choose|k: int|
            #![trigger b@[k], a@[k]]
            0 <= k < 32 && b@[k] < a@[k] && (forall|j: int| 0 <= j < k ==> b@[j] == a@[j]);
        if i < k {
            assert(b@[i] == a@[i]);
        } else if k < i {
            assert(a@[k] == b@[k]);
        }
    }
}

/// The order on header hashes is transitive.
pub proof fn lemma_hash_lt_transitive(a: [u8; 32], b: [u8; 32], c: [u8; 32])
    requires
        hash_lt(a, b),
        hash_lt(b, c),
    ensures
        hash_lt(a, c),
{
    let i = choose|i: int|
        #![trigger a@[i], b@[i]]
        0 <= i < 32 && a@[i] < b@[i] && (forall|j: int| 0 <= j < i ==> a@[j] == b@[j]);
    let k = choose|k: int|
        #![trigger b@[k], c@[k]]
        0 <= k < 32 && b@[k] < c@[k] && (forall|j: int| 0 <= j < k ==> b@[j] == c@[j]);
    if i <= k {
        assert(a@[i] < c@[i]);
        assert(forall|j: int| 0 <= j < i ==> a@[j] == c@[j]);
    } else {
        assert(a@[k] == b@[k]);
        assert(a@[k] < c@[k]);
        assert(forall|j: int| 0 <= j < k ==> a@[j] == c@[j]);
    }
}

/// Times are strictly totally ordered by `time_lt`.
pub proof fn lemma_time_lt_total(a: Time, b: Time)
    ensures
        a != b ==> time_lt(a, b) || time_lt(b, a),
        !(time_lt(a, b) && time_lt(b, a)),
        !time_lt(a, a),
{
    match (a.header, b.header) {
        (Some(x), Some(y)) => {
            lemma_hash_lt_total(x, y);
        },
        _ => {},
    }
}

/// `time_lt` is transitive.
pub proof fn lemma_time_lt_transitive(a: Time, b: Time, c: Time)
    requires
        time_lt(a, b),
        time_lt(b, c),
    ensures
        time_lt(a, c),
{
    match (a.header, b.header, c.header) {
        (Some(x), Some(y), Some(z)) => {
            lemma_hash_lt_total(x, y);
            lemma_hash_lt_total(y, z);
            lemma_hash_lt_total(x, z);
            if x != y && y != z {
                lemma_hash_lt_transitive(x, y, z);
            }
        },
        _ => {},
    }
}

/// Whether two header hashes are equal.
pub fn hash_equal(a: &[u8; 32], b: &[u8; 32]) -> (r: bool)
    ensures
        r == (*a == *b),
{
    let mut i: usize = 0;
    while i < HASH_LEN
        invariant
            i <= 32,
            forall|j: int| 0 <= j < i ==> a@[j] == b@[j],
        decreases 32 - i,
    {
        if a[i] != b[i] {
            return false;
        }
        i += 1;
    }
    proof {
        lemma_hash_eq_from_bytes(*a, *b);
    }
    true
}

/// Whether header hash `a` comes strictly before `b`.
pub fn hash_less(a: &[u8; 32], b: &[u8; 32]) -> (r: bool)
    ensures
        r == hash_lt(*a, *b),
{
    let mut i: usize = 0;
    while i < HASH_LEN
        invariant
            i <= 32,
            forall|j: int| 0 <= j < i ==> a@[j] == b@[j],
        decreases 32 - i,
    {
        if a[i] < b[i] {
            assert(a@[i as int] < b@[i as int]);
            return true;
        }
        if a[i] > b[i] {
            assert forall|k: int|
                #![trigger a@[k], b@[k]]
                0 <= k < 32 && a@[k] < b@[k] implies !(forall|j: int| 0 <= j < k ==> a@[j] == b@[j])
            by {
                assert(k != i);
                if k > i {
                    assert(a@[i as int] != b@[i as int]);
                }
            }
            return false;
        }
        i += 1;
    }
    false
}

/// Whether two times are equal.
pub fn time_equal(a: &Time, b: &Time) -> (r: bool)
    ensures
        r == (*a == *b),
{
    if a.position != b.position {
        return false;
    }
    match (&a.header, &b.header) {
        (None, None) => true,
        (Some(x), Some(y)) => hash_equal(x, y),
        _ => false,
    }
}

/// Whether time `a` comes strictly before time `b`.
pub fn time_less(a: &Time, b: &Time) -> (r: bool)
    ensures
        r == time_lt(*a, *b),
{
    match (&a.header, &b.header) {
        (None, None) => a.position < b.position,
        (None, Some(_)) => true,
        (Some(_), None) => false,
        (Some(x), Some(y)) => {
            if hash_equal(x, y) {
                a.position < b.position
            } else {
                hash_less(x, y)
            }
        },
    }
}

} // verus!
