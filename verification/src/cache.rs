//! The two bounded caches of the engine.
//!
//! Both are least-recently-used caches of the `caches` crate, keyed by the
//! binary form of a peer identifier. Verus does not look inside them: what
//! each holds has a name, and each call the engine makes goes through a small
//! function whose contract says, over that name, what the crate's source
//! shows of the call. Nothing in this module is proved.
//!
//! A cache's contents are listed from the most recently used pair to the
//! least recently used one.

use vstd::prelude::*;
use caches::{Cache, RawLRU};
use crate::assoc::{delete, has_key, key_index, lookup, promote};
use crate::ids::PeerId;
use crate::ledger::{Ledger, LedgerView};
use crate::protocol::ProtocolId;

verus! {

/// The largest capacity that a cache is made with. The table behind a cache is
/// allocated when the cache is made, so the capacity has to be one that can be
/// allocated.
pub const MAX_CAPACITY: usize = 1_048_576;

/// `caches::RawLRU`, the cache itself. Nothing of its inside is known here.
#[verifier::external_type_specification]
#[verifier::external_body]
#[verifier::reject_recursive_types(K)]
#[verifier::reject_recursive_types(V)]
#[verifier::reject_recursive_types(E)]
#[verifier::reject_recursive_types(S)]
pub struct ExRawLRU<K, V, E, S>(caches::RawLRU<K, V, E, S>);

/// `caches::DefaultEvictCallback`, the callback of a cache that tells nobody
/// of an eviction. It only occurs in the type of the caches.
#[verifier::external_type_specification]
#[verifier::external_body]
pub struct ExDefaultEvictCallback(caches::DefaultEvictCallback);

/// The pairs that the cache of known peers holds, most recently used first:
/// each peer with the protocol version last agreed with it.
pub uninterp spec fn peer_cache_entries(c: RawLRU<Vec<u8>, Option<ProtocolId>>) -> Seq<(Seq<u8>, Option<ProtocolId>)>;

/// The capacity that the cache of known peers was made with.
pub uninterp spec fn peer_cache_cap(c: RawLRU<Vec<u8>, Option<ProtocolId>>) -> int;

/// The pairs that the cache of ledgers holds, most recently used first: each
/// peer with its ledger.
pub uninterp spec fn ledger_cache_entries(c: RawLRU<Vec<u8>, Ledger>) -> Seq<(Seq<u8>, LedgerView)>;

/// The capacity that the cache of ledgers was made with.
pub uninterp spec fn ledger_cache_cap(c: RawLRU<Vec<u8>, Ledger>) -> int;

/// `RawLRU::new`: an empty cache of the given capacity. The crate refuses a
/// capacity of zero, which `requires` leaves out.
#[verifier::external_body]
pub(crate) fn peer_cache_new(cap: usize) -> (c: RawLRU<Vec<u8>, Option<ProtocolId>>)
    requires
        0 < cap <= MAX_CAPACITY,
    ensures
        peer_cache_entries(c) == Seq::<(Seq<u8>, Option<ProtocolId>)>::empty(),
        peer_cache_cap(c) == cap,
{
    RawLRU::new(cap).unwrap()
}

/// `Cache::put` on a `RawLRU`: the pair becomes the most recently used one.
/// A pair with the same key is replaced; where the key is new and the cache is
/// full, the least recently used pair is dropped.
#[verifier::external_body]
pub(crate) fn peer_cache_put(
    c: &mut RawLRU<Vec<u8>, Option<ProtocolId>>,
    key: Vec<u8>,
    protocol: Option<ProtocolId>,
)
    ensures
        peer_cache_entries(*final(c)) == promote(
            peer_cache_entries(*old(c)),
            peer_cache_cap(*old(c)),
            key@,
            protocol,
        ),
        peer_cache_cap(*final(c)) == peer_cache_cap(*old(c)),
{
    let _ = c.put(key, protocol);
}

/// `Cache::remove` on a `RawLRU`: the pair with the key leaves, the others
/// keep their order.
#[verifier::external_body]
pub(crate) fn peer_cache_remove(c: &mut RawLRU<Vec<u8>, Option<ProtocolId>>, key: &Vec<u8>)
    ensures
        peer_cache_entries(*final(c)) == delete(peer_cache_entries(*old(c)), key@),
        peer_cache_cap(*final(c)) == peer_cache_cap(*old(c)),
{
    let _ = c.remove(key);
}

/// `Cache::peek` on a `RawLRU`: the value under the key, if there is one. The
/// cache is not changed.
#[verifier::external_body]
pub(crate) fn peer_cache_peek(c: &RawLRU<Vec<u8>, Option<ProtocolId>>, key: &Vec<u8>) -> (found:
    Option<Option<ProtocolId>>)
    ensures
        found == lookup(peer_cache_entries(*c), key@),
{
    c.peek(key).copied()
}

/// `RawLRU::iter`: all pairs, most recently used first.
#[verifier::external_body]
pub(crate) fn peer_cache_list(c: &RawLRU<Vec<u8>, Option<ProtocolId>>) -> (pairs: Vec<
    (PeerId, Option<ProtocolId>),
>)
    ensures
        pairs@.len() == peer_cache_entries(*c).len(),
        forall|i: int|
            0 <= i < pairs@.len() ==> (#[trigger] pairs@[i]).0@ == peer_cache_entries(*c)[i].0
                && pairs@[i].1 == peer_cache_entries(*c)[i].1,
{
    c.iter().map(|(k, v)| (PeerId::from_bytes(k.clone()), *v)).collect()
}

/// `RawLRU::new`: an empty cache of the given capacity. The crate refuses a
/// capacity of zero, which `requires` leaves out.
#[verifier::external_body]
pub(crate) fn ledger_cache_new(cap: usize) -> (c: RawLRU<Vec<u8>, Ledger>)
    requires
        0 < cap <= MAX_CAPACITY,
    ensures
        ledger_cache_entries(c) == Seq::<(Seq<u8>, LedgerView)>::empty(),
        ledger_cache_cap(c) == cap,
{
    RawLRU::new(cap).unwrap()
}

/// `Cache::put` on a `RawLRU`: the pair becomes the most recently used one.
/// A pair with the same key is replaced; where the key is new and the cache is
/// full, the least recently used pair is dropped.
#[verifier::external_body]
pub(crate) fn ledger_cache_put(c: &mut RawLRU<Vec<u8>, Ledger>, key: Vec<u8>, ledger: Ledger)
    ensures
        ledger_cache_entries(*final(c)) == promote(
            ledger_cache_entries(*old(c)),
            ledger_cache_cap(*old(c)),
            key@,
            ledger@,
        ),
        ledger_cache_cap(*final(c)) == ledger_cache_cap(*old(c)),
{
    let _ = c.put(key, ledger);
}

/// `Cache::remove` on a `RawLRU`: the pair with the key leaves and its ledger
/// is handed out; the others keep their order.
#[verifier::external_body]
pub(crate) fn ledger_cache_remove(c: &mut RawLRU<Vec<u8>, Ledger>, key: &Vec<u8>) -> (removed:
    Option<Ledger>)
    ensures
        ledger_cache_entries(*final(c)) == delete(ledger_cache_entries(*old(c)), key@),
        ledger_cache_cap(*final(c)) == ledger_cache_cap(*old(c)),
        match removed {
            Some(ledger) => lookup(ledger_cache_entries(*old(c)), key@) == Some(ledger@),
            None => !has_key(ledger_cache_entries(*old(c)), key@),
        },
{
    c.remove(key)
}

/// `Cache::peek_mut` on a `RawLRU`: the ledger under the key is exchanged for
/// the given one where it stands, and no pair changes its place. Without the
/// key nothing changes.
#[verifier::external_body]
pub(crate) fn ledger_cache_exchange(
    c: &mut RawLRU<Vec<u8>, Ledger>,
    key: &Vec<u8>,
    ledger: Ledger,
) -> (previous: Option<Ledger>)
    ensures
        ledger_cache_cap(*final(c)) == ledger_cache_cap(*old(c)),
        match previous {
            Some(before) => lookup(ledger_cache_entries(*old(c)), key@) == Some(before@)
                && ledger_cache_entries(*final(c)) == ledger_cache_entries(*old(c)).update(
                key_index(ledger_cache_entries(*old(c)), key@),
                (key@, ledger@),
            ),
            None => !has_key(ledger_cache_entries(*old(c)), key@) && ledger_cache_entries(
                *final(c),
            ) == ledger_cache_entries(*old(c)),
        },
{
    c.peek_mut(key).map(|slot| slot.replace(ledger))
}

/// `Cache::peek` on a `RawLRU`: the ledger under the key, if there is one. The
/// cache is not changed.
#[verifier::external_body]
pub(crate) fn ledger_cache_peek<'a>(c: &'a RawLRU<Vec<u8>, Ledger>, key: &Vec<u8>) -> (found:
    Option<&'a Ledger>)
    ensures
        match found {
            Some(ledger) => lookup(ledger_cache_entries(*c), key@) == Some(ledger@),
            None => !has_key(ledger_cache_entries(*c), key@),
        },
{
    c.peek(key)
}

/// `RawLRU::keys`: all keys, most recently used first.
#[verifier::external_body]
pub(crate) fn ledger_cache_keys(c: &RawLRU<Vec<u8>, Ledger>) -> (keys: Vec<PeerId>)
    ensures
        keys@.len() == ledger_cache_entries(*c).len(),
        forall|i: int|
            0 <= i < keys@.len() ==> (#[trigger] keys@[i])@ == ledger_cache_entries(*c)[i].0,
{
    c.keys().map(|k| PeerId::from_bytes(k.clone())).collect()
}

} // verus!
