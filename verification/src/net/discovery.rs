//! LAN discovery rules: which peers are listed and in what order, and how
//! this run names itself in beacons. Sockets and threads belong to the
//! application.
use vstd::prelude::*;
use crate::game::history::hex;
use crate::net::proto::PEER_TIMEOUT_MS;
use crate::order::{is_permutation, sort_positions, sorted_stably};
use crate::text::{chars_of, string_of};

verus! {

/// The lower-case form of a text (`str::to_lowercase`, Unicode case mapping).
pub uninterp spec fn spec_lowercase(s: Seq<char>) -> Seq<char>;

/// `str::to_lowercase`.
#[verifier::external_body]
fn lowercase(s: &str) -> (r: String)
    ensures
        r@ == spec_lowercase(s@),
{
    s.to_lowercase()
}

/// A peer last heard from `age_ms` milliseconds ago is still listed
/// (the age is taken modulo 2^64, as a `u64`).
pub fn is_fresh(age_ms: u128) -> (r: bool)
    ensures
        r == ((age_ms as u64) <= PEER_TIMEOUT_MS),
{
    (age_ms as u64) <= PEER_TIMEOUT_MS
}

/// The positions of the peers named `names` in listing order: by name,
/// ignoring case; equal names keep their order.
pub fn peer_order(names: &Vec<String>) -> (r: Vec<usize>)
    ensures
        is_permutation(r@, names@.len() as nat),
        sorted_stably(names@.map_values(|s: String| spec_lowercase(s@)), r@, false),
{
    let mut keys: Vec<Vec<char>> = Vec::new();
    let mut i: usize = 0;
    while i < names.len()
        invariant
            i <= names@.len(),
            keys@.len() == i,
            forall|k: int| 0 <= k < i ==> (#[trigger] keys@[k])@ == spec_lowercase(names@[k]@),
        decreases names@.len() - i,
    {
        let low = lowercase(names[i].as_str());
        keys.push(chars_of(low.as_str()));
        i = i + 1;
    }
    let r = sort_positions(&keys, false);
    assert(keys@.map_values(|k: Vec<char>| k@) =~= names@.map_values(|s: String| spec_lowercase(s@)));
    r
}

/// The id this run advertises: the instance number in lower-case hexadecimal.
pub fn instance_id_text(id: u64) -> (r: String)
    ensures
        r@ == hex(id as nat),
{
    let mut v: Vec<char> = Vec::new();
    crate::game::history::push_hex(&mut v, id);
    assert(v@ =~= hex(id as nat));
    string_of(&v)
}

} // verus!
