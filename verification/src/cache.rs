//! Values that are shared for a short time.
//!
//! Reads of one key are made one after the other by the caller; a read that
//! had to wait gets what was fetched meanwhile.

use vstd::prelude::*;

use crate::dict::Dict;

verus! {

/// A value, with the time at which it was put in.
#[derive(Debug)]
pub struct Cached<T> {
    pub at: u64,
    pub value: T,
}

/// Values by key, each with the time at which it was put in. Times are counts
/// of one clock that never runs backwards.
#[derive(Debug)]
pub struct Cache<T> {
    slots: Dict<Cached<T>>,
}

impl<T> View for Cache<T> {
    type V = Map<Seq<char>, Cached<T>>;

    closed spec fn view(&self) -> Map<Seq<char>, Cached<T>> {
        self.slots@
    }
}

/// What a read is answered with.
#[derive(Debug)]
pub enum Lookup<'a, T> {
    /// A value that is there.
    Hit(&'a T),
    /// Nothing: the value has to be fetched.
    Fetch,
}

/// A value may be used by a read that arrived at `arrival`, at the time `now`:
/// it is younger than the limit, or was put in after the read arrived.
pub open spec fn usable<T>(c: Cached<T>, arrival: u64, now: u64, ttl: u64) -> bool {
    (c.at <= now && now - c.at < ttl) || (c.at > now && ttl > 0) || c.at >= arrival
}

/// The value that a read is answered with.
pub open spec fn answer<T>(
    slots: Map<Seq<char>, Cached<T>>,
    key: Seq<char>,
    arrival: u64,
    now: u64,
    ttl: u64,
) -> Option<T> {
    match slots.get(key) {
        Some(c) => if usable(c, arrival, now, ttl) {
            Some(c.value)
        } else {
            None
        },
        None => None,
    }
}

/// The values after a fetch: the fetched one is kept where it may be shared.
pub open spec fn settled<T>(
    slots: Map<Seq<char>, Cached<T>>,
    key: Seq<char>,
    now: u64,
    value: T,
    cacheable: bool,
) -> Map<Seq<char>, Cached<T>> {
    if cacheable {
        slots.insert(key, Cached { at: now, value })
    } else {
        slots
    }
}

impl<T> Cache<T> {
    /// No values.
    pub fn new() -> (c: Cache<T>)
        ensures
            c@ == Map::<Seq<char>, Cached<T>>::empty(),
    {
        Cache { slots: Dict::new() }
    }

    /// What a read that arrived at `arrival` is answered with at the time
    /// `now`, with `ttl` as the limit on the age of a value.
    pub fn get_or_fetch(&self, key: &str, arrival: u64, now: u64, ttl: u64) -> (r: Lookup<'_, T>)
        ensures
            match r {
                Lookup::Hit(v) => answer(self@, key@, arrival, now, ttl) == Some(*v),
                Lookup::Fetch => answer(self@, key@, arrival, now, ttl) is None,
            },
    {
        match self.slots.get(key) {
            Some(c) => {
                let age: u64 = if c.at <= now {
                    now - c.at
                } else {
                    0
                };
                if age < ttl || c.at >= arrival {
                    Lookup::Hit(&c.value)
                } else {
                    Lookup::Fetch
                }
            },
            None => Lookup::Fetch,
        }
    }

    /// Takes in what was fetched, where it may be shared.
    pub fn settle(&mut self, key: &str, now: u64, value: T, cacheable: bool)
        ensures
            final(self)@ == settled(old(self)@, key@, now, value, cacheable),
    {
        if cacheable {
            self.store(key, now, value);
        }
    }

    /// Puts a value in, in place of the one that was there.
    pub fn store(&mut self, key: &str, now: u64, value: T)
        ensures
            final(self)@ == old(self)@.insert(key@, Cached { at: now, value }),
    {
        self.slots.insert(key.to_owned(), Cached { at: now, value });
    }
}

impl<T> Default for Cache<T> {
    fn default() -> (c: Cache<T>)
        ensures
            c@ == Map::<Seq<char>, Cached<T>>::empty(),
    {
        Cache::new()
    }
}

/// A value that was put in answers reads until it has reached the limit, and
/// only those that were waiting for it from then on.
pub proof fn lemma_lifetime<T>(
    slots: Map<Seq<char>, Cached<T>>,
    key: Seq<char>,
    at: u64,
    value: T,
    arrival: u64,
    now: u64,
    ttl: u64,
)
    requires
        at <= now,
    ensures
        now - at < ttl ==> answer(
            slots.insert(key, Cached { at, value }),
            key,
            arrival,
            now,
            ttl,
        ) == Some(value),
        now - at >= ttl && at < arrival ==> answer(
            slots.insert(key, Cached { at, value }),
            key,
            arrival,
            now,
            ttl,
        ) is None,
{
}

/// A read that arrived before a fetch ended is answered with what was fetched,
/// whatever the limit: reads that overlap make one fetch.
pub proof fn lemma_overlapping_reads_share<T>(
    slots: Map<Seq<char>, Cached<T>>,
    key: Seq<char>,
    ended: u64,
    value: T,
    arrival: u64,
    now: u64,
    ttl: u64,
)
    requires
        arrival <= ended,
    ensures
        answer(settled(slots, key, ended, value, true), key, arrival, now, ttl) == Some(value),
{
}

/// What may not be shared answers no read.
pub proof fn lemma_not_shared<T>(
    slots: Map<Seq<char>, Cached<T>>,
    key: Seq<char>,
    ended: u64,
    value: T,
)
    ensures
        settled(slots, key, ended, value, false) == slots,
{
}

/// Putting a value in under one key changes no answer for another.
pub proof fn lemma_keys_are_independent<T>(
    slots: Map<Seq<char>, Cached<T>>,
    key: Seq<char>,
    other: Seq<char>,
    c: Cached<T>,
    arrival: u64,
    now: u64,
    ttl: u64,
)
    requires
        key != other,
    ensures
        answer(slots.insert(key, c), other, arrival, now, ttl) == answer(
            slots,
            other,
            arrival,
            now,
            ttl,
        ),
{
}

} // verus!
