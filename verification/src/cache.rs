//! A small time-bounded cache. An entry is served while it was used within
//! the time to live, kept but not served until the final time to live, and
//! dropped after that.

use vstd::prelude::*;
use std::collections::HashMap;
use std::time::{Duration, Instant};
use vstd::std_specs::hash::obeys_key_model;

verus! {

broadcast use vstd::std_specs::hash::group_hash_axioms;

#[verifier::external_type_specification]
#[verifier::external_body]
pub struct ExInstant(std::time::Instant);

/// `Instant::now`: the current time of the monotonic clock. Nothing is
/// stated of it.
#[verifier::external_body]
fn instant_now() -> (now: Instant) {
    Instant::now()
}

/// `Instant::elapsed`: time passed since `instant`. It depends on the clock,
/// so nothing is stated of it.
#[verifier::external_body]
fn elapsed_since(instant: &Instant) -> (d: Duration) {
    instant.elapsed()
}

/// `Duration::as_nanos`: the whole nanoseconds of a duration. `Duration` is
/// opaque here, so the result is left unstated.
#[verifier::external_body]
fn duration_nanos(d: &Duration) -> (n: u128) {
    d.as_nanos()
}

/// How an entry stands, by the time since it was last used.
#[derive(Clone, Copy, Debug, PartialEq, Eq, Structural)]
pub enum Freshness {
    /// Used within the time to live: served.
    Fresh,
    /// Past the time to live: kept, not served.
    Stale,
    /// Past the final time to live: dropped.
    Expired,
}

/// Where an entry last used `elapsed` nanoseconds ago stands.
pub open spec fn freshness_of(elapsed: int, time_to_live: int, final_time_to_live: int) -> Freshness {
    if elapsed > final_time_to_live * 1_000_000_000 {
        Freshness::Expired
    } else if elapsed > time_to_live * 1_000_000_000 {
        Freshness::Stale
    } else {
        Freshness::Fresh
    }
}

/// Classifies an entry last used `elapsed_nanos` ago, with both limits in
/// seconds.
pub fn classify_age(elapsed_nanos: u128, time_to_live: u64, final_time_to_live: u64) -> (f: Freshness)
    ensures
        f == freshness_of(elapsed_nanos as int, time_to_live as int, final_time_to_live as int),
{
    let final_limit: u128 = (final_time_to_live as u128) * 1_000_000_000;
    let limit: u128 = (time_to_live as u128) * 1_000_000_000;
    if elapsed_nanos > final_limit {
        Freshness::Expired
    } else if elapsed_nanos > limit {
        Freshness::Stale
    } else {
        Freshness::Fresh
    }
}

/// Keys whose `clone` gives back an equal key.
pub open spec fn clone_is_exact<T: Clone>() -> bool {
    forall|a: T, b: T| #[trigger] call_ensures(T::clone, (&a,), b) ==> a == b
}

struct CacheEntry<V> {
    value: V,
    last_access: Instant,
}

/// Values by key, each with the time it was last used.
pub struct Cache<K: Eq + std::hash::Hash + Clone, V: Clone> {
    time_to_live: u64,
    final_time_to_live: u64,
    data: HashMap<K, CacheEntry<V>>,
}

impl<K: Eq + std::hash::Hash + Clone, V: Clone> Cache<K, V> {
    #[verifier::type_invariant]
    spec fn keys_behave(self) -> bool {
        obeys_key_model::<K>() && clone_is_exact::<K>()
    }

    /// The cached values by key.
    pub closed spec fn values(self) -> Map<K, V> {
        self.data@.map_values(|e: CacheEntry<V>| e.value)
    }

    /// When each entry was last used.
    pub closed spec fn last_uses(self) -> Map<K, Instant> {
        self.data@.map_values(|e: CacheEntry<V>| e.last_access)
    }

    /// Seconds an entry is served after its last use.
    pub closed spec fn ttl(self) -> u64 {
        self.time_to_live
    }

    /// Seconds an entry is kept after its last use.
    pub closed spec fn final_ttl(self) -> u64 {
        self.final_time_to_live
    }

    /// An empty cache; both limits in seconds.
    pub fn new(time_to_live: u64, final_time_to_live: u64) -> (c: Self)
        requires
            obeys_key_model::<K>(),
            clone_is_exact::<K>(),
        ensures
            c.values() == Map::<K, V>::empty(),
            c.last_uses() == Map::<K, Instant>::empty(),
            c.ttl() == time_to_live,
            c.final_ttl() == final_time_to_live,
    {
        let c = Cache { time_to_live, final_time_to_live, data: HashMap::new() };
        assert(c.values() =~= Map::<K, V>::empty());
        assert(c.last_uses() =~= Map::<K, Instant>::empty());
        c
    }

    /// Stores `value` under `key`, last used at `now`.
    pub fn insert_at(&mut self, key: K, value: V, now: Instant)
        ensures
            final(self).values() == old(self).values().insert(key, value),
            final(self).last_uses() == old(self).last_uses().insert(key, now),
            final(self).ttl() == old(self).ttl(),
            final(self).final_ttl() == old(self).final_ttl(),
    {
        proof {
            use_type_invariant(&*self);
        }
        let entry = CacheEntry { value, last_access: now };
        let mut data = HashMap::new();
        std::mem::swap(&mut data, &mut self.data);
        data.insert(key, entry);
        self.data = data;
        proof {
            assert(self.values() =~= old(self).values().insert(key, value));
            assert(self.last_uses() =~= old(self).last_uses().insert(key, now));
        }
    }

    /// Stores `value` under `key`, used now (the clock's reading, which is
    /// not stated): the other entries and their times of use stay.
    pub fn insert(&mut self, key: K, value: V)
        ensures
            final(self).values() == old(self).values().insert(key, value),
            final(self).last_uses().contains_key(key),
            final(self).last_uses().remove(key) == old(self).last_uses().remove(key),
            final(self).ttl() == old(self).ttl(),
            final(self).final_ttl() == old(self).final_ttl(),
    {
        let now = instant_now();
        self.insert_at(key, value, now);
        proof {
            assert(old(self).last_uses().insert(key, now).remove(key) =~= old(self).last_uses().remove(key));
        }
    }

    /// How an entry of this cache stands once `age_nanos` nanoseconds have
    /// passed since its last use: by this cache's own time to live and
    /// final time to live.
    pub fn freshness_after(&self, age_nanos: u128) -> (f: Freshness)
        ensures
            f == freshness_of(age_nanos as int, self.ttl() as int, self.final_ttl() as int),
    {
        classify_age(age_nanos, self.time_to_live, self.final_time_to_live)
    }

    /// Looks `key` up given how its entry stands: an expired entry is
    /// dropped and a stale one kept untouched, both giving `None`; a fresh
    /// one is marked used at `now` and a clone of its value is returned.
    pub fn get_with_freshness(&mut self, key: &K, freshness: Freshness, now: Instant) -> (r: Option<V>)
        ensures
            final(self).ttl() == old(self).ttl(),
            final(self).final_ttl() == old(self).final_ttl(),
            !old(self).values().contains_key(*key) ==> r is None && final(self).values() == old(self).values()
                && final(self).last_uses() == old(self).last_uses(),
            old(self).values().contains_key(*key) ==> match freshness {
                Freshness::Expired => r is None && final(self).values() == old(self).values().remove(*key)
                    && final(self).last_uses() == old(self).last_uses().remove(*key),
                Freshness::Stale => r is None && final(self).values() == old(self).values()
                    && final(self).last_uses() == old(self).last_uses(),
                Freshness::Fresh => final(self).values() == old(self).values() && (r matches Some(v)
                    && cloned(old(self).values()[*key], v))
                    && final(self).last_uses() == old(self).last_uses().insert(*key, now),
            },
    {
        proof {
            use_type_invariant(&*self);
        }
        if !self.data.contains_key(key) {
            return None;
        }
        match freshness {
            Freshness::Expired => {
                let mut data = HashMap::new();
                std::mem::swap(&mut data, &mut self.data);
                data.remove(key);
                self.data = data;
                proof {
                    assert(self.values() =~= old(self).values().remove(*key));
                    assert(self.last_uses() =~= old(self).last_uses().remove(*key));
                }
                None
            },
            Freshness::Stale => None,
            Freshness::Fresh => {
                let mut data = HashMap::new();
                std::mem::swap(&mut data, &mut self.data);
                let removed = data.remove(key);
                match removed {
                    Some(entry) => {
                        let copy = entry.value.clone();
                        let same_key = key.clone();
                        let refreshed = CacheEntry { value: entry.value, last_access: now };
                        data.insert(same_key, refreshed);
                        self.data = data;
                        proof {
                            assert(self.values() =~= old(self).values());
                            assert(self.last_uses() =~= old(self).last_uses().insert(*key, now));
                        }
                        Some(copy)
                    },
                    None => {
                        self.data = data;
                        None
                    },
                }
            },
        }
    }

    /// Looks `key` up: `None` when it is missing or no longer fresh (and
    /// dropped when past the final time to live, kept untouched otherwise);
    /// otherwise a clone of its value, and the entry is marked used now.
    /// Which of these happens to a present key, and the time read as now,
    /// depend on the clock; what each does is exactly that of
    /// `get_with_freshness`.
    pub fn get(&mut self, key: &K) -> (r: Option<V>)
        ensures
            final(self).ttl() == old(self).ttl(),
            final(self).final_ttl() == old(self).final_ttl(),
            !old(self).values().contains_key(*key) ==> r is None && final(self).values() == old(self).values()
                && final(self).last_uses() == old(self).last_uses(),
            old(self).values().contains_key(*key) ==> {
                ||| r is None && final(self).values() == old(self).values().remove(*key)
                    && final(self).last_uses() == old(self).last_uses().remove(*key)
                ||| r is None && final(self).values() == old(self).values()
                    && final(self).last_uses() == old(self).last_uses()
                ||| final(self).values() == old(self).values() && (r matches Some(v) && cloned(
                    old(self).values()[*key],
                    v,
                )) && final(self).last_uses().contains_key(*key)
                    && final(self).last_uses().remove(*key) == old(self).last_uses().remove(*key)
            },
    {
        proof {
            use_type_invariant(&*self);
        }
        let freshness = match self.data.get(key) {
            None => {
                return None;
            },
            Some(entry) => {
                let elapsed = elapsed_since(&entry.last_access);
                self.freshness_after(duration_nanos(&elapsed))
            },
        };
        let now = instant_now();
        let r = self.get_with_freshness(key, freshness, now);
        proof {
            assert(old(self).last_uses().insert(*key, now).remove(*key) =~= old(self).last_uses().remove(*key));
        }
        r
    }

    /// Looks every entry up once, as after loading the cache: entries past
    /// the final time to live are dropped, the others keep their values.
    /// Says how many entries are left.
    pub fn purge(&mut self) -> (n: usize)
        ensures
            final(self).ttl() == old(self).ttl(),
            final(self).final_ttl() == old(self).final_ttl(),
            forall|k: K| #[trigger] final(self).values().contains_key(k) ==> old(self).values().contains_key(k)
                && final(self).values()[k] == old(self).values()[k],
            n == final(self).values().len(),
    {
        proof {
            use_type_invariant(&*self);
        }
        let mut keys: Vec<K> = Vec::new();
        let listed = self.data.keys();
        for k in listed {
            keys.push(k.clone());
        }
        let mut i: usize = 0;
        while i < keys.len()
            invariant
                i <= keys.len(),
                self.ttl() == old(self).ttl(),
                self.final_ttl() == old(self).final_ttl(),
                forall|k: K| #[trigger] self.values().contains_key(k) ==> old(self).values().contains_key(k)
                    && self.values()[k] == old(self).values()[k],
            decreases keys.len() - i,
        {
            let _ = self.get(&keys[i]);
            i = i + 1;
        }
        proof {
            assert(self.values().dom() =~= self.data@.dom());
        }
        self.data.len()
    }
}

/// A value just stored is what a fresh look-up of its key finds, and
/// storing it leaves the other keys as they were.
pub proof fn law_read_after_write<K, V>(values: Map<K, V>, key: K, value: V, other: K)
    ensures
        values.insert(key, value).contains_key(key),
        values.insert(key, value)[key] == value,
        other != key ==> values.insert(key, value).contains_key(other) == values.contains_key(other),
        other != key && values.contains_key(other) ==> values.insert(key, value)[other] == values[other],
{
}

/// A dropped entry is no longer found, and the other entries stay.
pub proof fn law_expired_entry_gone<K, V>(values: Map<K, V>, key: K, other: K)
    ensures
        !values.remove(key).contains_key(key),
        other != key ==> values.remove(key).contains_key(other) == values.contains_key(other),
{
}

/// Whether a cached value belongs to all hosts or to one.
#[derive(Clone, Copy, Debug, PartialEq, Eq, Structural)]
pub enum CacheScope {
    Global,
    Host,
}

/// The scope a variant name stands for.
pub open spec fn cache_scope_named(s: Seq<char>) -> Option<CacheScope> {
    if s == "Global"@ {
        Some(CacheScope::Global)
    } else if s == "Host"@ {
        Some(CacheScope::Host)
    } else {
        None
    }
}

impl CacheScope {
    /// Parses the variant's name.
    pub fn from_str(s: &str) -> (r: Result<CacheScope, ()>)
        ensures
            r matches Ok(scope) ==> cache_scope_named(s@) == Some(scope),
            r is Err ==> cache_scope_named(s@) is None,
    {
        proof {
            reveal_strlit("Global");
            reveal_strlit("Host");
        }
        if crate::enums::str_equals(s, "Global") {
            Ok(CacheScope::Global)
        } else if crate::enums::str_equals(s, "Host") {
            Ok(CacheScope::Host)
        } else {
            Err(())
        }
    }
}


/// An entry is served only while its age is within the time to live; past
/// it, but within the final time to live, it is kept and not served; past
/// the final time to live it is dropped. (Ages in nanoseconds, limits in
/// seconds.)
pub proof fn law_served_only_within_time_to_live(age: int, time_to_live: int, final_time_to_live: int)
    ensures
        freshness_of(age, time_to_live, final_time_to_live) == Freshness::Fresh <==> age <= time_to_live
            * 1_000_000_000 && age <= final_time_to_live * 1_000_000_000,
        freshness_of(age, time_to_live, final_time_to_live) == Freshness::Stale <==> time_to_live * 1_000_000_000
            < age <= final_time_to_live * 1_000_000_000,
        freshness_of(age, time_to_live, final_time_to_live) == Freshness::Expired <==> age > final_time_to_live
            * 1_000_000_000,
{
}

} // verus!
