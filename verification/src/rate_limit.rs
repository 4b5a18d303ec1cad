//! A token bucket per client that limits how fast a client creates entries.
use crate::errors::CreateRateError;
use crate::models::unix_now;
use std::collections::HashMap;
use vstd::prelude::*;

verus! {

broadcast use vstd::std_specs::hash::group_hash_axioms;

/// The tokens a new bucket starts with.
pub const MAX_CREATE_TOKENS: u8 = 2;

/// The seconds it takes to earn one token.
pub const RATE_REFILL_SECS: u64 = 1;

/// A token bucket: at most `capacity` tokens after each refill, one token
/// earned every `rate_secs` seconds since the last refill.
#[derive(Debug)]
pub struct Bucket {
    capacity: u8,
    token: u8,
    rate_secs: u64,
    last_refill: i64,
}

impl Bucket {
    pub closed spec fn spec_capacity(&self) -> u8 {
        self.capacity
    }

    pub closed spec fn spec_token(&self) -> u8 {
        self.token
    }

    pub closed spec fn spec_rate(&self) -> u64 {
        self.rate_secs
    }

    pub closed spec fn spec_last_refill(&self) -> i64 {
        self.last_refill
    }

    /// The whole tokens earned between the last refill and `now`, at most
    /// 255.  A period of zero earns the most at once, unless the clock went
    /// back.
    pub open spec fn tokens_due(&self, now: i64) -> u8 {
        if self.spec_rate() == 0 {
            if now < self.spec_last_refill() {
                0
            } else {
                255
            }
        } else if now <= self.spec_last_refill() {
            0
        } else {
            let earned = (now - self.spec_last_refill()) / (self.spec_rate() as int);
            if earned > 255 {
                255
            } else {
                earned as u8
            }
        }
    }

    /// A bucket of `size` holding the starting tokens, last refilled at
    /// `now`.
    pub fn new_at(size: u8, rate_secs: u64, now: i64) -> (b: Bucket)
        ensures
            b.spec_capacity() == size,
            b.spec_token() == MAX_CREATE_TOKENS,
            b.spec_rate() == rate_secs,
            b.spec_last_refill() == now,
    {
        Bucket { capacity: size, token: MAX_CREATE_TOKENS, rate_secs, last_refill: now }
    }

    /// A bucket of `size` holding the starting tokens, last refilled now.
    pub fn new(size: u8, rate_secs: u64) -> (b: Bucket)
        ensures
            b.spec_capacity() == size,
            b.spec_token() == MAX_CREATE_TOKENS,
            b.spec_rate() == rate_secs,
    {
        Self::new_at(size, rate_secs, unix_now())
    }

    pub fn token(&self) -> (t: u8)
        ensures
            t == self.spec_token(),
    {
        self.token
    }

    pub fn capacity(&self) -> (c: u8)
        ensures
            c == self.spec_capacity(),
    {
        self.capacity
    }

    /// Sets the most tokens a refill leaves.
    pub fn set_capacity(&mut self, size: u8)
        ensures
            final(self).spec_capacity() == size,
            final(self).spec_token() == old(self).spec_token(),
            final(self).spec_rate() == old(self).spec_rate(),
            final(self).spec_last_refill() == old(self).spec_last_refill(),
    {
        self.capacity = size;
    }

    /// The tokens earned by `now`.
    pub fn due_at(&self, now: i64) -> (d: u8)
        ensures
            d == self.tokens_due(now),
    {
        if self.rate_secs == 0 {
            if now < self.last_refill {
                0
            } else {
                255
            }
        } else if now <= self.last_refill {
            0
        } else {
            let elapsed: i128 = now as i128 - self.last_refill as i128;
            let earned: i128 = elapsed / (self.rate_secs as i128);
            if earned > 255 {
                255
            } else {
                earned as u8
            }
        }
    }

    /// Adds the tokens earned by `now` (the sum taken modulo 256, as the
    /// counter is a byte), keeps at most `capacity` of them, and records
    /// `now` as the last refill.
    pub fn refill_at(&mut self, now: i64)
        ensures
            final(self).spec_token() == (if old(self).spec_capacity() as int <= (old(self).spec_token()
                + old(self).tokens_due(now)) % 256 {
                old(self).spec_capacity() as int
            } else {
                (old(self).spec_token() + old(self).tokens_due(now)) % 256
            }),
            final(self).spec_token() <= final(self).spec_capacity(),
            final(self).spec_last_refill() == now,
            final(self).spec_capacity() == old(self).spec_capacity(),
            final(self).spec_rate() == old(self).spec_rate(),
    {
        let due = self.due_at(now);
        let sum: u16 = (self.token as u16 + due as u16) % 256;
        let current = sum as u8;
        self.last_refill = now;
        self.token = if self.capacity <= current {
            self.capacity
        } else {
            current
        };
    }

    /// Refills the bucket with the tokens earned by the current time.
    pub fn refill(&mut self)
        ensures
            final(self).spec_token() <= final(self).spec_capacity(),
            final(self).spec_capacity() == old(self).spec_capacity(),
            final(self).spec_rate() == old(self).spec_rate(),
    {
        let now = unix_now();
        self.refill_at(now);
    }

    /// Takes one token; an empty bucket refuses.
    pub fn get_token(&mut self) -> (r: Result<(), CreateRateError>)
        ensures
            old(self).spec_token() > 0 <==> r is Ok,
            old(self).spec_token() > 0 ==> final(self).spec_token() == old(self).spec_token() - 1,
            old(self).spec_token() == 0 ==> final(self).spec_token() == 0 && r == Err::<
                (),
                CreateRateError,
            >(CreateRateError::BucketEmpty),
            final(self).spec_capacity() == old(self).spec_capacity(),
            final(self).spec_rate() == old(self).spec_rate(),
            final(self).spec_last_refill() == old(self).spec_last_refill(),
    {
        if self.token == 0 {
            Err(CreateRateError::BucketEmpty)
        } else {
            self.token = self.token - 1;
            Ok(())
        }
    }
}

/// The buckets of the clients, by client id.
#[derive(Debug)]
pub struct CreateRateLimit {
    inner: HashMap<u128, Bucket>,
}

impl CreateRateLimit {
    pub closed spec fn clients(&self) -> Map<u128, Bucket> {
        self.inner@
    }

    /// No client yet.
    pub fn new() -> (r: Self)
        ensures
            r.clients() == Map::<u128, Bucket>::empty(),
    {
        CreateRateLimit { inner: HashMap::new() }
    }

    /// Gives the client `id` a fresh bucket of two tokens, replacing any it
    /// had.
    pub fn add_client(&mut self, id: u128)
        ensures
            final(self).clients().dom() == old(self).clients().dom().insert(id),
            forall|k: u128|
                k != id && old(self).clients().contains_key(k) ==> #[trigger] final(self).clients()[k]
                    == old(self).clients()[k],
            final(self).clients()[id].spec_capacity() == 2,
            final(self).clients()[id].spec_token() == MAX_CREATE_TOKENS,
            final(self).clients()[id].spec_rate() == RATE_REFILL_SECS,
    {
        let b = Bucket::new(2, RATE_REFILL_SECS);
        self.inner.insert(id, b);
    }
}

} // verus!
