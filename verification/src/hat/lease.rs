//! Leases: which connection holds which channel, and until when.
//!
//! A channel is held by at most one connection. Whoever sets it again takes the
//! lease over. Times are milliseconds since the daemon started.

use vstd::prelude::*;

verus! {

/// The number of channels: one for each byte.
pub const CHANNELS: usize = 256;

/// A lease on one channel.
#[derive(Debug, Clone, Copy, PartialEq, Eq, Structural)]
pub struct Lease {
    pub conn_id: u64,
    pub expires_at_ms: u64,
}

/// A lease as clients see it.
#[derive(Debug, Clone, Copy, PartialEq, Eq, Structural)]
pub struct LeaseStatus {
    pub channel: u8,
    pub ttl_remaining_ms: u64,
    pub conn_id: u64,
}

/// The leases, by channel.
pub type Leases = Map<u8, Lease>;

/// A time so much later than another, up to the end of time.
pub open spec fn later(now_ms: u64, ttl_ms: u64) -> u64 {
    if now_ms + ttl_ms <= u64::MAX {
        (now_ms + ttl_ms) as u64
    } else {
        u64::MAX
    }
}

/// How long until a time, from another: nothing, if it has passed.
pub open spec fn remaining(expires_at_ms: u64, now_ms: u64) -> u64 {
    if expires_at_ms >= now_ms {
        (expires_at_ms - now_ms) as u64
    } else {
        0
    }
}

/// The channels below `limit` that a connection holds, in order.
pub open spec fn held_below(leases: Leases, conn_id: u64, limit: nat) -> Seq<u8>
    decreases limit,
{
    if limit == 0 {
        Seq::empty()
    } else {
        let ch = (limit - 1) as u8;
        let before = held_below(leases, conn_id, (limit - 1) as nat);
        if leases.dom().contains(ch) && leases[ch].conn_id == conn_id {
            before.push(ch)
        } else {
            before
        }
    }
}

/// The channels that a connection holds, in order.
pub open spec fn held_by(leases: Leases, conn_id: u64) -> Seq<u8> {
    held_below(leases, conn_id, CHANNELS as nat)
}

/// The leases without those of a connection.
pub open spec fn without_connection(leases: Leases, conn_id: u64) -> Leases {
    leases.remove_keys(
        Set::new(|ch: u8| leases.dom().contains(ch) && leases[ch].conn_id == conn_id),
    )
}

/// The leases on channels below `limit` as clients see them, by channel.
pub open spec fn listed_below(leases: Leases, now_ms: u64, limit: nat) -> Seq<LeaseStatus>
    decreases limit,
{
    if limit == 0 {
        Seq::empty()
    } else {
        let ch = (limit - 1) as u8;
        let before = listed_below(leases, now_ms, (limit - 1) as nat);
        if leases.dom().contains(ch) {
            before.push(
                LeaseStatus {
                    channel: ch,
                    ttl_remaining_ms: remaining(leases[ch].expires_at_ms, now_ms),
                    conn_id: leases[ch].conn_id,
                },
            )
        } else {
            before
        }
    }
}

/// The leases as clients see them, by channel.
pub open spec fn listed(leases: Leases, now_ms: u64) -> Seq<LeaseStatus> {
    listed_below(leases, now_ms, CHANNELS as nat)
}

/// Keeps track of leases.
#[derive(Debug)]
pub struct LeaseManager {
    /// One slot for each channel.
    slots: [Option<Lease>; 256],
}

impl View for LeaseManager {
    type V = Leases;

    closed spec fn view(&self) -> Leases {
        Map::new(
            |ch: u8| self.slots@[ch as int] is Some,
            |ch: u8| self.slots@[ch as int]->0,
        )
    }
}

impl LeaseManager {
    /// No leases.
    pub fn new() -> (r: LeaseManager)
        ensures
            r@ == Map::<u8, Lease>::empty(),
    {
        let slots: [Option<Lease>; 256] = [None; 256];
        let r = LeaseManager { slots };
        assert(r@ =~= Map::<u8, Lease>::empty());
        r
    }

    /// Give a channel to a connection for `ttl_ms` milliseconds.
    pub fn set_lease(&mut self, channel: u8, conn_id: u64, ttl_ms: u64, now_ms: u64)
        ensures
            final(self)@ == old(self)@.insert(
                channel,
                Lease { conn_id, expires_at_ms: later(now_ms, ttl_ms) },
            ),
    {
        let expires_at_ms: u64 = now_ms.saturating_add(ttl_ms);
        self.slots[channel as usize] = Some(Lease { conn_id, expires_at_ms });
        assert(self@ =~= old(self)@.insert(
            channel,
            Lease { conn_id, expires_at_ms: later(now_ms, ttl_ms) },
        ));
    }

    /// Take a channel from whoever holds it.
    pub fn revoke_channel(&mut self, channel: u8)
        ensures
            final(self)@ == old(self)@.remove(channel),
    {
        self.slots[channel as usize] = None;
        assert(self@ =~= old(self)@.remove(channel));
    }

    /// Take every channel from a connection. Returns the channels that it held.
    pub fn release_connection(&mut self, conn_id: u64) -> (r: Vec<u8>)
        ensures
            r@ == held_by(old(self)@, conn_id),
            final(self)@ == without_connection(old(self)@, conn_id),
    {
        let mut released: Vec<u8> = Vec::new();
        let mut i: usize = 0;
        while i < CHANNELS
            invariant
                i <= CHANNELS,
                released@ == held_below(old(self)@, conn_id, i as nat),
                forall|k: int|
                    i <= k < CHANNELS ==> self.slots@[k] == old(self).slots@[k],
                forall|k: int|
                    0 <= k < i ==> #[trigger] self.slots@[k] == (if old(self).slots@[k] is Some
                        && old(self).slots@[k]->0.conn_id == conn_id {
                        None::<Lease>
                    } else {
                        old(self).slots@[k]
                    }),
            decreases CHANNELS - i,
        {
            let channel: u8 = i as u8;
            assert(old(self)@.dom().contains(channel) <==> old(self).slots@[i as int] is Some);
            if let Some(lease) = self.slots[i] {
                if lease.conn_id == conn_id {
                    self.slots[i] = None;
                    released.push(channel);
                }
            }
            i = i + 1;
        }
        assert(self@ =~= without_connection(old(self)@, conn_id));
        released
    }

    /// Every lease, with the time that it has left.
    pub fn get_active_leases(&self, now_ms: u64) -> (r: Vec<LeaseStatus>)
        ensures
            r@ == listed(self@, now_ms),
    {
        let mut out: Vec<LeaseStatus> = Vec::new();
        let mut i: usize = 0;
        while i < CHANNELS
            invariant
                i <= CHANNELS,
                out@ == listed_below(self@, now_ms, i as nat),
            decreases CHANNELS - i,
        {
            let channel: u8 = i as u8;
            assert(self@.dom().contains(channel) <==> self.slots@[i as int] is Some);
            if let Some(lease) = self.slots[i] {
                out.push(
                    LeaseStatus {
                        channel,
                        ttl_remaining_ms: lease.expires_at_ms.saturating_sub(now_ms),
                        conn_id: lease.conn_id,
                    },
                );
            }
            i = i + 1;
        }
        out
    }
}

// ---------------------------------------------------------------------------
// Laws
// ---------------------------------------------------------------------------

/// The channels that are released on a disconnect are exactly those that the
/// connection held, each once, and the leases of others stay as they were.
pub proof fn law_release_is_exact(leases: Leases, conn_id: u64, ch: u8)
    ensures
        held_by(leases, conn_id).contains(ch) <==> leases.dom().contains(ch) && leases[ch].conn_id
            == conn_id,
        held_by(leases, conn_id).no_duplicates(),
        without_connection(leases, conn_id).dom().contains(ch) <==> leases.dom().contains(ch)
            && leases[ch].conn_id != conn_id,
        without_connection(leases, conn_id).dom().contains(ch) ==> without_connection(
            leases,
            conn_id,
        )[ch] == leases[ch],
{
    lemma_held_below(leases, conn_id, CHANNELS as nat);
}

proof fn lemma_held_below(leases: Leases, conn_id: u64, limit: nat)
    requires
        limit <= CHANNELS,
    ensures
        forall|ch: u8|
            held_below(leases, conn_id, limit).contains(ch) <==> ch < limit
                && leases.dom().contains(ch) && leases[ch].conn_id == conn_id,
        held_below(leases, conn_id, limit).no_duplicates(),
    decreases limit,
{
    if limit > 0 {
        lemma_held_below(leases, conn_id, (limit - 1) as nat);
        let before = held_below(leases, conn_id, (limit - 1) as nat);
        let last = (limit - 1) as u8;
        let s = held_below(leases, conn_id, limit);
        assert forall|ch: u8|
            s.contains(ch) <==> ch < limit && leases.dom().contains(ch) && leases[ch].conn_id
                == conn_id by {
            if s.contains(ch) {
                let i = choose|i: int| 0 <= i < s.len() && s[i] == ch;
                if i < before.len() {
                    assert(before[i] == ch);
                    assert(before.contains(ch));
                }
            }
            if ch < limit && leases.dom().contains(ch) && leases[ch].conn_id == conn_id {
                if ch == last {
                    assert(s[s.len() - 1] == ch);
                } else {
                    assert(before.contains(ch));
                    let i = choose|i: int| 0 <= i < before.len() && before[i] == ch;
                    assert(s[i] == ch);
                }
            }
        }
        if s.len() > before.len() {
            assert forall|i: int, j: int| 0 <= i < s.len() && 0 <= j < s.len() && i != j implies s[i]
                != s[j] by {
                if i < before.len() {
                    assert(before.contains(before[i]));
                }
                if j < before.len() {
                    assert(before.contains(before[j]));
                }
            }
        }
    }
}

/// Setting a lease gives the channel to the connection, whoever held it, until
/// the time to live is over; revoking it frees the channel. Neither touches
/// another channel.
pub proof fn law_one_holder_for_each_channel(
    leases: Leases,
    channel: u8,
    other: u8,
    conn_id: u64,
    ttl_ms: u64,
    now_ms: u64,
)
    requires
        other != channel,
    ensures
        ({
            let lease = Lease { conn_id, expires_at_ms: later(now_ms, ttl_ms) };
            let set = leases.insert(channel, lease);
            &&& set[channel].conn_id == conn_id
            &&& now_ms + ttl_ms <= u64::MAX ==> remaining(set[channel].expires_at_ms, now_ms)
                == ttl_ms
            &&& set.dom().contains(other) == leases.dom().contains(other)
            &&& set[other] == leases[other]
            &&& set.remove(channel).dom().contains(other) == leases.dom().contains(other)
            &&& !set.remove(channel).dom().contains(channel)
        }),
{
}

/// Every lease is listed exactly once, with its holder and the time that it has
/// left.
pub proof fn law_every_lease_is_listed(leases: Leases, now_ms: u64)
    ensures
        forall|i: int|
            0 <= i < listed(leases, now_ms).len() ==> {
                let s = #[trigger] listed(leases, now_ms)[i];
                &&& leases.dom().contains(s.channel)
                &&& s.conn_id == leases[s.channel].conn_id
                &&& s.ttl_remaining_ms == remaining(leases[s.channel].expires_at_ms, now_ms)
            },
        forall|ch: u8| #[trigger]
            leases.dom().contains(ch) ==> exists|i: int|
                0 <= i < listed(leases, now_ms).len() && #[trigger] listed(
                    leases,
                    now_ms,
                )[i].channel == ch,
        forall|i: int, j: int|
            0 <= i < j < listed(leases, now_ms).len() ==> (#[trigger] listed(
                leases,
                now_ms,
            )[i]).channel != (#[trigger] listed(leases, now_ms)[j]).channel,
{
    lemma_listed_below(leases, now_ms, CHANNELS as nat);
    let s = listed(leases, now_ms);
    assert forall|ch: u8| #[trigger] leases.dom().contains(ch) implies exists|i: int|
        0 <= i < s.len() && #[trigger] s[i].channel == ch by {
        assert(ch < CHANNELS);
        let i = choose|i: int|
            0 <= i < listed_below(leases, now_ms, CHANNELS as nat).len()
                && #[trigger] listed_below(leases, now_ms, CHANNELS as nat)[i].channel == ch;
        assert(s[i].channel == ch);
    }
}

proof fn lemma_listed_below(leases: Leases, now_ms: u64, limit: nat)
    requires
        limit <= CHANNELS,
    ensures
        forall|i: int|
            0 <= i < listed_below(leases, now_ms, limit).len() ==> {
                let s = #[trigger] listed_below(leases, now_ms, limit)[i];
                &&& s.channel < limit
                &&& leases.dom().contains(s.channel)
                &&& s.conn_id == leases[s.channel].conn_id
                &&& s.ttl_remaining_ms == remaining(leases[s.channel].expires_at_ms, now_ms)
            },
        forall|ch: u8|
            (#[trigger] leases.dom().contains(ch)) && ch < limit ==> exists|i: int|
                0 <= i < listed_below(leases, now_ms, limit).len() && #[trigger] listed_below(
                    leases,
                    now_ms,
                    limit,
                )[i].channel == ch,
        forall|i: int, j: int|
            0 <= i < j < listed_below(leases, now_ms, limit).len() ==> (#[trigger] listed_below(
                leases,
                now_ms,
                limit,
            )[i]).channel != (#[trigger] listed_below(leases, now_ms, limit)[j]).channel,
    decreases limit,
{
    if limit > 0 {
        lemma_listed_below(leases, now_ms, (limit - 1) as nat);
        let before = listed_below(leases, now_ms, (limit - 1) as nat);
        let s = listed_below(leases, now_ms, limit);
        assert forall|ch: u8|
            (#[trigger] leases.dom().contains(ch)) && ch < limit implies exists|i: int|
            0 <= i < s.len() && #[trigger] s[i].channel == ch by {
            if ch == limit - 1 {
                assert(s[s.len() - 1].channel == ch);
            } else {
                let i = choose|i: int| 0 <= i < before.len() && #[trigger] before[i].channel == ch;
                assert(s[i].channel == ch);
            }
        }
    }
}

/// A lease has left what lies between now and its end, and nothing once that is past.
pub proof fn law_what_a_lease_has_left(expires_at_ms: u64, now_ms: u64, ttl_ms: u64)
    ensures
        now_ms <= expires_at_ms ==> now_ms + remaining(expires_at_ms, now_ms) == expires_at_ms,
        now_ms > expires_at_ms ==> remaining(expires_at_ms, now_ms) == 0,
        now_ms + ttl_ms <= u64::MAX ==> later(now_ms, ttl_ms) == now_ms + ttl_ms,
        now_ms + ttl_ms > u64::MAX ==> later(now_ms, ttl_ms) == u64::MAX,
{
}

} // verus!
