//! Operational helpers: traffic counters, id generation, timers, a
//! keyed cache with expiry, human-readable formatting, and a rate
//! limiter.
//!
//! Nothing here reads a clock; every function that needs the time
//! takes it as a tick count, so the behaviour is a function of its
//! arguments and the caller supplies `Instant`-derived values.

use vstd::prelude::*;

use crate::text::{spec_dec, append_dec, str_eq};

verus! {

/// The period of a wrapping 64-bit counter.
pub open spec fn wrap64() -> int {
    0x1_0000_0000_0000_0000
}

/// Traffic and connection counters.
#[derive(Debug, PartialEq, Eq)]
pub struct MetricsCounter {
    pub packets_received: u64,
    pub packets_sent: u64,
    pub bytes_received: u64,
    pub bytes_sent: u64,
    pub connections_total: u64,
    pub connections_active: u64,
    pub start_time: u64,
}

impl Clone for MetricsCounter {
    fn clone(&self) -> (r: Self)
        ensures
            r == *self,
    {
        MetricsCounter {
            packets_received: self.packets_received,
            packets_sent: self.packets_sent,
            bytes_received: self.bytes_received,
            bytes_sent: self.bytes_sent,
            connections_total: self.connections_total,
            connections_active: self.connections_active,
            start_time: self.start_time,
        }
    }
}

/// Two digits, zero-padded.
pub open spec fn spec_pad2(n: int) -> Seq<char> {
    if n < 10 {
        seq!['0'] + spec_dec(n)
    } else {
        spec_dec(n)
    }
}

fn append_pad2(out: &mut String, n: u64)
    ensures
        final(out)@ == old(out)@ + spec_pad2(n as int),
{
    if n < 10 {
        out.append("0");
        append_dec(out, n);
        proof {
            reveal_strlit("0");
            assert("0"@ =~= seq!['0']);
            assert(out@ =~= old(out)@ + spec_pad2(n as int));
        }
    } else {
        append_dec(out, n);
    }
}

/// The statistics report of a counter at time `now`.
pub open spec fn spec_stats_text(c: MetricsCounter, now: int) -> Seq<char> {
    let up = if now >= c.start_time { now - c.start_time } else { 0 };
    "Metrics:\n- Uptime: "@ + spec_pad2(up / 3600) + ":"@ + spec_pad2((up % 3600) / 60) + ":"@
        + spec_pad2(up % 60) + "\n- Active Connections: "@ + spec_dec(c.connections_active as int)
        + "\n- Total Connections: "@ + spec_dec(c.connections_total as int)
        + "\n- Packets Received: "@ + spec_dec(c.packets_received as int) + "\n- Packets Sent: "@
        + spec_dec(c.packets_sent as int) + "\n- Bytes Received: "@ + spec_dec(
        c.bytes_received as int / 1000000,
    ) + " MB\n- Bytes Sent: "@ + spec_dec(c.bytes_sent as int / 1000000) + " MB"@
}

impl MetricsCounter {
    /// Fresh counters, started at `now`.
    pub fn new(now: u64) -> (r: MetricsCounter)
        ensures
            r.packets_received == 0,
            r.packets_sent == 0,
            r.bytes_received == 0,
            r.bytes_sent == 0,
            r.connections_total == 0,
            r.connections_active == 0,
            r.start_time == now,
    {
        MetricsCounter {
            packets_received: 0,
            packets_sent: 0,
            bytes_received: 0,
            bytes_sent: 0,
            connections_total: 0,
            connections_active: 0,
            start_time: now,
        }
    }

    /// Adds to the received-packet counter, wrapping on overflow.
    pub fn increment_packets_received(&mut self, count: u64)
        ensures
            final(self).packets_received as int == (old(self).packets_received + count) % wrap64(),
            *final(self) == (MetricsCounter { packets_received: final(self).packets_received, ..*old(self) }),
    {
        self.packets_received = self.packets_received.wrapping_add(count);
    }

    /// Adds to the sent-packet counter, wrapping on overflow.
    pub fn increment_packets_sent(&mut self, count: u64)
        ensures
            final(self).packets_sent as int == (old(self).packets_sent + count) % wrap64(),
            *final(self) == (MetricsCounter { packets_sent: final(self).packets_sent, ..*old(self) }),
    {
        self.packets_sent = self.packets_sent.wrapping_add(count);
    }

    /// Adds to the received-byte counter, wrapping on overflow.
    pub fn increment_bytes_received(&mut self, bytes: u64)
        ensures
            final(self).bytes_received as int == (old(self).bytes_received + bytes) % wrap64(),
            *final(self) == (MetricsCounter { bytes_received: final(self).bytes_received, ..*old(self) }),
    {
        self.bytes_received = self.bytes_received.wrapping_add(bytes);
    }

    /// Adds to the sent-byte counter, wrapping on overflow.
    pub fn increment_bytes_sent(&mut self, bytes: u64)
        ensures
            final(self).bytes_sent as int == (old(self).bytes_sent + bytes) % wrap64(),
            *final(self) == (MetricsCounter { bytes_sent: final(self).bytes_sent, ..*old(self) }),
    {
        self.bytes_sent = self.bytes_sent.wrapping_add(bytes);
    }

    /// Counts a new connection: one more total, one more active.
    pub fn increment_connections(&mut self)
        ensures
            final(self).connections_total as int == (old(self).connections_total + 1) % wrap64(),
            final(self).connections_active as int == (old(self).connections_active + 1) % wrap64(),
            *final(self) == (MetricsCounter {
                connections_total: final(self).connections_total,
                connections_active: final(self).connections_active,
                ..*old(self)
            }),
    {
        self.connections_total = self.connections_total.wrapping_add(1);
        self.connections_active = self.connections_active.wrapping_add(1);
    }

    /// Counts a closed connection: one less active.
    pub fn decrement_connections(&mut self)
        ensures
            final(self).connections_active as int == (old(self).connections_active as int - 1)
                % wrap64(),
            *final(self) == (MetricsCounter {
                connections_active: final(self).connections_active,
                ..*old(self)
            }),
    {
        self.connections_active = self.connections_active.wrapping_sub(1);
    }

    /// The received-packet counter.
    pub fn get_packets_received(&self) -> (r: u64)
        ensures
            r == self.packets_received,
    {
        self.packets_received
    }

    /// The sent-packet counter.
    pub fn get_packets_sent(&self) -> (r: u64)
        ensures
            r == self.packets_sent,
    {
        self.packets_sent
    }

    /// The received-byte counter.
    pub fn get_bytes_received(&self) -> (r: u64)
        ensures
            r == self.bytes_received,
    {
        self.bytes_received
    }

    /// The sent-byte counter.
    pub fn get_bytes_sent(&self) -> (r: u64)
        ensures
            r == self.bytes_sent,
    {
        self.bytes_sent
    }

    /// All connections ever counted.
    pub fn get_connections_total(&self) -> (r: u64)
        ensures
            r == self.connections_total,
    {
        self.connections_total
    }

    /// The connections currently open.
    pub fn get_connections_active(&self) -> (r: u64)
        ensures
            r == self.connections_active,
    {
        self.connections_active
    }

    /// Seconds since the counter started, zero for a clock running
    /// behind the start.
    pub fn get_uptime(&self, now: u64) -> (r: u64)
        ensures
            r as int == if now >= self.start_time {
                now - self.start_time
            } else {
                0
            },
    {
        if now >= self.start_time {
            now - self.start_time
        } else {
            0
        }
    }

    /// The statistics report at time `now`, exactly as
    /// `spec_stats_text` spells it.
    pub fn format_stats(&self, now: u64) -> (r: String)
        ensures
            r@ == spec_stats_text(*self, now as int),
    {
        let up = self.get_uptime(now);
        let mut out = String::new();
        out.append("Metrics:\n- Uptime: ");
        append_pad2(&mut out, up / 3600);
        out.append(":");
        append_pad2(&mut out, (up % 3600) / 60);
        out.append(":");
        append_pad2(&mut out, up % 60);
        out.append("\n- Active Connections: ");
        append_dec(&mut out, self.connections_active);
        out.append("\n- Total Connections: ");
        append_dec(&mut out, self.connections_total);
        out.append("\n- Packets Received: ");
        append_dec(&mut out, self.packets_received);
        out.append("\n- Packets Sent: ");
        append_dec(&mut out, self.packets_sent);
        out.append("\n- Bytes Received: ");
        append_dec(&mut out, self.bytes_received / 1000000);
        out.append(" MB\n- Bytes Sent: ");
        append_dec(&mut out, self.bytes_sent / 1000000);
        out.append(" MB");
        proof {
            assert(out@ =~= spec_stats_text(*self, now as int));
        }
        out
    }
}

/// A generator of process-unique ids under a fixed prefix.
#[derive(Debug, PartialEq, Eq)]
pub struct IdGenerator {
    pub counter: u64,
    pub prefix: String,
}

impl IdGenerator {
    /// A generator whose ids start with the prefix.
    pub fn new(prefix: &str) -> (r: IdGenerator)
        ensures
            r.counter == 0,
            r.prefix@ == prefix@,
    {
        IdGenerator { counter: 0, prefix: prefix.to_owned() }
    }

    /// The next id: the prefix, an underscore, the counter; the
    /// counter advances, wrapping at the top.
    pub fn generate(&mut self) -> (r: String)
        ensures
            r@ == old(self).prefix@ + "_"@ + spec_dec(old(self).counter as int),
            final(self).prefix == old(self).prefix,
            final(self).counter as int == (old(self).counter + 1) % wrap64(),
    {
        let n = self.counter;
        self.counter = self.counter.wrapping_add(1);
        let mut out = self.prefix.clone();
        out.append("_");
        append_dec(&mut out, n);
        proof {
            assert(out@ =~= self.prefix@ + "_"@ + spec_dec(n as int));
        }
        out
    }

    /// The next id with the time worked in: prefix, timestamp,
    /// counter, underscore-separated.
    pub fn generate_with_timestamp(&mut self, now: u64) -> (r: String)
        ensures
            r@ == old(self).prefix@ + "_"@ + spec_dec(now as int) + "_"@ + spec_dec(
                old(self).counter as int,
            ),
            final(self).prefix == old(self).prefix,
            final(self).counter as int == (old(self).counter + 1) % wrap64(),
    {
        let n = self.counter;
        self.counter = self.counter.wrapping_add(1);
        let mut out = self.prefix.clone();
        out.append("_");
        append_dec(&mut out, now);
        out.append("_");
        append_dec(&mut out, n);
        proof {
            assert(out@ =~= self.prefix@ + "_"@ + spec_dec(now as int) + "_"@ + spec_dec(n as int));
        }
        out
    }
}

/// A named timer: remembers when it started.
#[derive(Debug, PartialEq, Eq)]
pub struct Timer {
    pub start: u64,
    pub name: String,
}

impl Timer {
    /// A timer started at `now`.
    pub fn new(name: &str, now: u64) -> (r: Timer)
        ensures
            r.start == now,
            r.name@ == name@,
    {
        Timer { start: now, name: name.to_owned() }
    }

    /// Ticks since the start, zero for a clock running behind it.
    pub fn elapsed(&self, now: u64) -> (r: u64)
        ensures
            r as int == if now >= self.start {
                now - self.start
            } else {
                0
            },
    {
        if now >= self.start {
            now - self.start
        } else {
            0
        }
    }
}

/// One cache slot: a key, its value, and when it was stored.
#[derive(Debug)]
pub struct CacheEntry<T> {
    pub key: String,
    pub value: T,
    pub inserted_at: u64,
}

/// Whether a slot stored at `at` is still fresh at `now` under the
/// time-to-live `ttl`.
pub open spec fn fresh_at(at: int, now: int, ttl: int) -> bool {
    (if now >= at {
        now - at
    } else {
        0
    }) < ttl
}

/// A keyed cache whose entries expire `ttl` ticks after insertion.
/// Expired entries stop being served at once and leave storage on
/// the next sweep.
#[derive(Debug)]
pub struct Cache<T> {
    pub entries: Vec<CacheEntry<T>>,
    pub ttl: u64,
}

impl<T: Clone> Cache<T> {
    /// The stored keys, in insertion order.
    pub open spec fn keys(&self) -> Seq<Seq<char>> {
        self.entries@.map_values(|e: CacheEntry<T>| e.key@)
    }

    /// Well-formed: stored keys are pairwise distinct.
    pub open spec fn wf(&self) -> bool {
        forall|i: int, j: int| 0 <= i < j < self.entries@.len()
            ==> (#[trigger] self.entries@[i]).key@ != (#[trigger] self.entries@[j]).key@
    }

    /// True when some slot holds the key.
    pub open spec fn has_key(&self, key: Seq<char>) -> bool {
        exists|i: int| 0 <= i < self.entries@.len() && (#[trigger] self.entries@[i]).key@ == key
    }

    /// The slot holding the key.
    pub open spec fn slot_of(&self, key: Seq<char>) -> int {
        choose|i: int| 0 <= i < self.entries@.len() && (#[trigger] self.entries@[i]).key@ == key
    }

    /// An empty cache with the time-to-live.
    pub fn new(ttl: u64) -> (r: Cache<T>)
        ensures
            r.wf(),
            r.entries@.len() == 0,
            r.ttl == ttl,
    {
        Cache { entries: Vec::new(), ttl }
    }

    fn find_slot(&self, key: &str) -> (r: Option<usize>)
        ensures
            match r {
                Some(i) => i < self.entries@.len() && self.entries@[i as int].key@ == key@,
                None => !self.has_key(key@),
            },
    {
        let mut i: usize = 0;
        while i < self.entries.len()
            invariant
                i <= self.entries.len(),
                forall|k: int| 0 <= k < i ==> (#[trigger] self.entries@[k]).key@ != key@,
            decreases self.entries.len() - i,
        {
            if str_eq(self.entries[i].key.as_str(), key) {
                return Some(i);
            }
            i = i + 1;
        }
        None
    }

    /// Stores a value under the key at time `now`, replacing any
    /// slot that held the key.
    pub fn insert(&mut self, key: String, value: T, now: u64)
        requires
            old(self).wf(),
        ensures
            final(self).wf(),
            final(self).ttl == old(self).ttl,
            old(self).has_key(key@) ==> final(self).entries@ == old(self).entries@.update(
                old(self).slot_of(key@),
                CacheEntry { key, value, inserted_at: now },
            ),
            !old(self).has_key(key@) ==> final(self).entries@ == old(self).entries@.push(
                CacheEntry { key, value, inserted_at: now },
            ),
    {
        match self.find_slot(key.as_str()) {
            Some(i) => {
                proof {
                    assert(self.has_key(key@));
                    assert(i as int == self.slot_of(key@));
                }
                self.entries.set(i, CacheEntry { key, value, inserted_at: now });
            },
            None => {
                self.entries.push(CacheEntry { key, value, inserted_at: now });
            },
        }
    }

    /// Serves the value under the key, as a clone, exactly when the
    /// key is stored and its slot is still fresh at `now`.
    pub fn get(&self, key: &str, now: u64) -> (r: Option<T>)
        requires
            self.wf(),
        ensures
            match r {
                Some(v) => self.has_key(key@) && fresh_at(
                    self.entries@[self.slot_of(key@)].inserted_at as int,
                    now as int,
                    self.ttl as int,
                ) && vstd::pervasive::cloned(self.entries@[self.slot_of(key@)].value, v),
                None => !self.has_key(key@) || !fresh_at(
                    self.entries@[self.slot_of(key@)].inserted_at as int,
                    now as int,
                    self.ttl as int,
                ),
            },
    {
        let i = match self.find_slot(key) {
            Some(i) => i,
            None => {
                return None;
            },
        };
        proof {
            assert(self.has_key(key@));
            assert(i as int == self.slot_of(key@));
        }
        let at = self.entries[i].inserted_at;
        let age = if now >= at {
            now - at
        } else {
            0
        };
        if age < self.ttl {
            Some(self.entries[i].value.clone())
        } else {
            None
        }
    }

    /// Takes the value under the key out, whether or not it is
    /// still fresh.
    pub fn remove(&mut self, key: &str) -> (r: Option<T>)
        requires
            old(self).wf(),
        ensures
            final(self).wf(),
            final(self).ttl == old(self).ttl,
            old(self).has_key(key@) ==> r is Some && final(self).entries@
                == old(self).entries@.remove(old(self).slot_of(key@)),
            !old(self).has_key(key@) ==> r is None && final(self).entries@ == old(self).entries@,
    {
        let i = match self.find_slot(key) {
            Some(i) => i,
            None => {
                return None;
            },
        };
        proof {
            assert(self.has_key(key@));
            assert(i as int == self.slot_of(key@));
        }
        let entry = self.entries.remove(i);
        Some(entry.value)
    }

    /// Sweeps the storage: every slot no longer fresh at `now`
    /// leaves; the fresh ones stay in order.
    pub fn cleanup_expired(&mut self, now: u64)
        requires
            old(self).wf(),
        ensures
            final(self).wf(),
            final(self).ttl == old(self).ttl,
            final(self).entries@ == old(self).entries@.filter(
                |e: CacheEntry<T>| fresh_at(e.inserted_at as int, now as int, old(self).ttl as int),
            ),
    {
        let ghost pred = |e: CacheEntry<T>| fresh_at(
            e.inserted_at as int,
            now as int,
            old(self).ttl as int,
        );
        let mut i: usize = 0;
        let ghost mut j: int = 0;
        while i < self.entries.len()
            invariant
                i <= self.entries@.len(),
                0 <= j <= old(self).entries@.len(),
                self.entries@.len() - i == old(self).entries@.len() - j,
                self.ttl == old(self).ttl,
                self.entries@.take(i as int) =~= old(self).entries@.take(j).filter(pred),
                self.entries@.skip(i as int) =~= old(self).entries@.skip(j),
                pred == (|e: CacheEntry<T>| fresh_at(
                    e.inserted_at as int,
                    now as int,
                    old(self).ttl as int,
                )),
            decreases self.entries.len() - i,
        {
            proof {
                reveal(Seq::filter);
                assert(old(self).entries@.take(j + 1).drop_last() =~= old(self).entries@.take(j));
                assert(old(self).entries@.take(j + 1).last() == old(self).entries@[j]);
                assert(self.entries@[i as int] == self.entries@.skip(i as int)[0]);
                assert(self.entries@[i as int] == old(self).entries@[j]);
            }
            let ghost prev = self.entries@;
            let at = self.entries[i].inserted_at;
            let age = if now >= at {
                now - at
            } else {
                0
            };
            if age >= self.ttl {
                let _ = self.entries.remove(i);
                proof {
                    assert(self.entries@.take(i as int) =~= prev.take(i as int));
                    assert(self.entries@.take(i as int) =~= old(self).entries@.take(j + 1).filter(pred));
                    assert forall|k: int| 0 <= k < self.entries@.skip(i as int).len()
                        implies self.entries@.skip(i as int)[k] == old(self).entries@.skip(j + 1)[k] by {
                        assert(prev.skip(i as int)[k + 1] == old(self).entries@.skip(j)[k + 1]);
                    }
                    assert(self.entries@.skip(i as int) =~= old(self).entries@.skip(j + 1));
                }
            } else {
                i = i + 1;
                proof {
                    assert(self.entries@.take(i as int) =~= self.entries@.take(i - 1).push(
                        self.entries@[i - 1],
                    ));
                    assert(self.entries@.take(i as int) =~= old(self).entries@.take(j + 1).filter(pred));
                    assert forall|k: int| 0 <= k < self.entries@.skip(i as int).len()
                        implies self.entries@.skip(i as int)[k] == old(self).entries@.skip(j + 1)[k] by {
                        assert(prev.skip(i - 1)[k + 1] == old(self).entries@.skip(j)[k + 1]);
                    }
                    assert(self.entries@.skip(i as int) =~= old(self).entries@.skip(j + 1));
                }
            }
            proof {
                j = j + 1;
            }
        }
        proof {
            reveal(Seq::filter);
            assert(old(self).entries@.take(j) =~= old(self).entries@);
            assert(self.entries@.take(i as int) =~= self.entries@);
            assert(self.entries@ == old(self).entries@.filter(pred));
            lemma_filter_entries_unique(old(self).entries@, pred);
        }
    }

    /// Empties the cache.
    pub fn clear(&mut self)
        ensures
            final(self).wf(),
            final(self).ttl == old(self).ttl,
            final(self).entries@.len() == 0,
    {
        self.entries.clear();
    }

    /// The number of stored slots, expired ones included until the
    /// next sweep.
    pub fn len(&self) -> (r: usize)
        ensures
            r == self.entries@.len(),
    {
        self.entries.len()
    }

    /// True when nothing is stored.
    pub fn is_empty(&self) -> (r: bool)
        ensures
            r == (self.entries@.len() == 0),
    {
        self.entries.len() == 0
    }
}

/// Sweeping a cache with pairwise distinct keys keeps the keys
/// pairwise distinct, and every kept slot stands in the storage
/// that was swept.
proof fn lemma_filter_entries_unique<T>(entries: Seq<CacheEntry<T>>, pred: spec_fn(CacheEntry<T>) -> bool)
    requires
        forall|i: int, j: int| 0 <= i < j < entries.len()
            ==> (#[trigger] entries[i]).key@ != (#[trigger] entries[j]).key@,
    ensures
        forall|a: int, b: int| 0 <= a < b < entries.filter(pred).len()
            ==> (#[trigger] entries.filter(pred)[a]).key@
                != (#[trigger] entries.filter(pred)[b]).key@,
        forall|a: int| 0 <= a < entries.filter(pred).len() ==> exists|k: int|
            0 <= k < entries.len() && entries[k] == #[trigger] entries.filter(pred)[a],
    decreases entries.len(),
{
    reveal(Seq::filter);
    if entries.len() > 0 {
        let rest = entries.drop_last();
        lemma_filter_entries_unique(rest, pred);
        let fr = rest.filter(pred);
        let fs = entries.filter(pred);
        assert forall|a: int| 0 <= a < fr.len() implies exists|k: int|
            0 <= k < entries.len() && entries[k] == #[trigger] fr[a] by {
            let k = choose|k: int| 0 <= k < rest.len() && rest[k] == #[trigger] fr[a];
            assert(entries[k] == fr[a]);
        }
        if pred(entries.last()) {
            assert(fs == fr.push(entries.last()));
            assert forall|a: int| 0 <= a < fr.len()
                implies (#[trigger] fr[a]).key@ != entries.last().key@ by {
                let k = choose|k: int| 0 <= k < rest.len() && rest[k] == #[trigger] fr[a];
                assert(entries[k] == fr[a]);
                assert(entries[k].key@ != entries[entries.len() - 1].key@);
            }
            assert forall|a: int, b: int| 0 <= a < b < fs.len()
                implies (#[trigger] fs[a]).key@ != (#[trigger] fs[b]).key@ by {
                if b < fr.len() {
                    assert(fr[a].key@ != fr[b].key@);
                } else {
                    assert(fs[b] == entries.last());
                    assert(fr[a].key@ != entries.last().key@);
                }
            }
            assert forall|a: int| 0 <= a < fs.len() implies exists|k: int|
                0 <= k < entries.len() && entries[k] == #[trigger] fs[a] by {
                if a < fr.len() {
                    let k = choose|k: int| 0 <= k < rest.len() && rest[k] == #[trigger] fr[a];
                    assert(entries[k] == fs[a]);
                } else {
                    assert(entries[entries.len() - 1] == fs[a]);
                }
            }
        } else {
            assert(fs == fr);
        }
    }
}

/// The unit names of `format_bytes`, from bytes to petabytes.
pub open spec fn unit_name(u: int) -> Seq<char> {
    if u == 0 {
        "B"@
    } else if u == 1 {
        "KB"@
    } else if u == 2 {
        "MB"@
    } else if u == 3 {
        "GB"@
    } else if u == 4 {
        "TB"@
    } else {
        "PB"@
    }
}

/// How many times 1024 divides into the size before it reads below
/// 1024, capped at the last unit.
pub open spec fn spec_unit_index(b: int, u: int) -> int
    decreases 5 - u,
{
    if b >= 1024 && u < 5 {
        spec_unit_index(b / 1024, u + 1)
    } else {
        u
    }
}

/// 1024 to the `u`th power.
pub open spec fn pow1024(u: int) -> int
    decreases u,
{
    if u <= 0 {
        1
    } else {
        1024 * pow1024(u - 1)
    }
}

/// The human-readable size: the value scaled to its unit with two
/// (truncated) decimal places, a space, and the unit name.
pub open spec fn spec_format_bytes(b: int) -> Seq<char> {
    let u = spec_unit_index(b, 0);
    let scaled = b * 100 / pow1024(u);
    spec_dec(scaled / 100) + "."@ + spec_pad2(scaled % 100) + " "@ + unit_name(u)
}

/// Renders a byte count for humans, as `spec_format_bytes` spells
/// it.
pub fn format_bytes(bytes: u64) -> (r: String)
    ensures
        r@ == spec_format_bytes(bytes as int),
{
    let mut b: u64 = bytes;
    let mut u: u64 = 0;
    while b >= 1024 && u < 5
        invariant
            u <= 5,
            b as int == bytes as int / pow1024(u as int),
            spec_unit_index(bytes as int, 0) == spec_unit_index(b as int, u as int),
        decreases 5 - u,
    {
        proof {
            lemma_pow1024_pos(u as int);
            vstd::arithmetic::div_mod::lemma_div_denominator(bytes as int, pow1024(u as int), 1024);
            lemma_pow1024_step(u as int);
        }
        b = b / 1024;
        u = u + 1;
    }
    proof {
        assert(pow1024(0) == 1);
        assert(pow1024(1) == 1024);
        assert(pow1024(2) == 1048576);
        assert(pow1024(3) == 1073741824);
        assert(pow1024(4) == 1099511627776);
        assert(pow1024(5) == 1125899906842624);
    }
    let d: u64 = if u == 0 {
        1
    } else if u == 1 {
        1024
    } else if u == 2 {
        1048576
    } else if u == 3 {
        1073741824
    } else if u == 4 {
        1099511627776
    } else {
        1125899906842624
    };
    proof {
        assert(d as int == pow1024(u as int));
    }
    let scaled = ((bytes as u128) * 100) / (d as u128);
    proof {
        assert(pow1024(spec_unit_index(bytes as int, 0)) == d as int);
        assert(scaled as int == bytes as int * 100 / pow1024(u as int));
        vstd::arithmetic::div_mod::lemma_div_nonincreasing(bytes as int * 100, d as int);
        assert(scaled as int <= bytes as int * 100);
        vstd::arithmetic::div_mod::lemma_div_is_ordered(
            scaled as int,
            bytes as int * 100,
            100,
        );
        vstd::arithmetic::div_mod::lemma_div_multiples_vanish(bytes as int, 100);
        assert(scaled as int / 100 <= bytes as int);
    }
    let whole = (scaled / 100) as u64;
    let frac = (scaled % 100) as u64;
    let mut out = crate::text::u64_to_dec(whole);
    out.append(".");
    append_pad2(&mut out, frac);
    out.append(" ");
    let name = if u == 0 {
        "B"
    } else if u == 1 {
        "KB"
    } else if u == 2 {
        "MB"
    } else if u == 3 {
        "GB"
    } else if u == 4 {
        "TB"
    } else {
        "PB"
    };
    out.append(name);
    proof {
        assert(out@ =~= spec_format_bytes(bytes as int));
    }
    out
}

proof fn lemma_pow1024_step(u: int)
    requires
        u >= 0,
    ensures
        pow1024(u + 1) == pow1024(u) * 1024,
{
    assert(pow1024(u + 1) == 1024 * pow1024(u));
}

proof fn lemma_pow1024_pos(u: int)
    ensures
        pow1024(u) >= 1,
    decreases u,
{
    if u > 0 {
        lemma_pow1024_pos(u - 1);
    }
}

/// The human-readable duration: days, hours, minutes and seconds,
/// the leading zero fields left out.
pub open spec fn spec_format_duration(total: int) -> Seq<char> {
    let days = total / 86400;
    let hours = (total % 86400) / 3600;
    let minutes = (total % 3600) / 60;
    let seconds = total % 60;
    if days > 0 {
        spec_dec(days) + "d "@ + spec_dec(hours) + "h "@ + spec_dec(minutes) + "m "@ + spec_dec(
            seconds,
        ) + "s"@
    } else if hours > 0 {
        spec_dec(hours) + "h "@ + spec_dec(minutes) + "m "@ + spec_dec(seconds) + "s"@
    } else if minutes > 0 {
        spec_dec(minutes) + "m "@ + spec_dec(seconds) + "s"@
    } else {
        spec_dec(seconds) + "s"@
    }
}

/// Renders a duration in seconds for humans, as
/// `spec_format_duration` spells it.
pub fn format_duration(total_secs: u64) -> (r: String)
    ensures
        r@ == spec_format_duration(total_secs as int),
{
    let days = total_secs / 86400;
    let hours = (total_secs % 86400) / 3600;
    let minutes = (total_secs % 3600) / 60;
    let seconds = total_secs % 60;
    let mut out = String::new();
    if days > 0 {
        append_dec(&mut out, days);
        out.append("d ");
        append_dec(&mut out, hours);
        out.append("h ");
        append_dec(&mut out, minutes);
        out.append("m ");
        append_dec(&mut out, seconds);
        out.append("s");
    } else if hours > 0 {
        append_dec(&mut out, hours);
        out.append("h ");
        append_dec(&mut out, minutes);
        out.append("m ");
        append_dec(&mut out, seconds);
        out.append("s");
    } else if minutes > 0 {
        append_dec(&mut out, minutes);
        out.append("m ");
        append_dec(&mut out, seconds);
        out.append("s");
    } else {
        append_dec(&mut out, seconds);
        out.append("s");
    }
    proof {
        assert(out@ =~= spec_format_duration(total_secs as int));
    }
    out
}

/// Whether a request stamped `t` still counts against the window at
/// time `now`.
pub open spec fn in_window(t: int, now: int, window: int) -> bool {
    (if now >= t {
        now - t
    } else {
        0
    }) < window
}

/// A sliding-window rate limiter: at most `max_requests` admissions
/// per `window` ticks.
#[derive(Debug, PartialEq, Eq)]
pub struct RateLimiter {
    pub max_requests: usize,
    pub window: u64,
    pub requests: Vec<u64>,
}

impl RateLimiter {
    /// A limiter admitting `max_requests` per `window` ticks.
    pub fn new(max_requests: usize, window: u64) -> (r: RateLimiter)
        ensures
            r.max_requests == max_requests,
            r.window == window,
            r.requests@.len() == 0,
    {
        RateLimiter { max_requests, window, requests: Vec::new() }
    }

    /// Admits a request at time `now` exactly when, after dropping
    /// the stamps that have left the window, fewer than the cap
    /// remain; an admitted request is stamped.
    pub fn check_rate_limit(&mut self, now: u64) -> (r: bool)
        ensures
            final(self).max_requests == old(self).max_requests,
            final(self).window == old(self).window,
            ({
                let kept = old(self).requests@.filter(
                    |t: u64| in_window(t as int, now as int, old(self).window as int),
                );
                if kept.len() < old(self).max_requests {
                    r && final(self).requests@ == kept.push(now)
                } else {
                    !r && final(self).requests@ == kept
                }
            }),
    {
        let ghost pred = |t: u64| in_window(t as int, now as int, old(self).window as int);
        let mut i: usize = 0;
        let ghost mut j: int = 0;
        while i < self.requests.len()
            invariant
                i <= self.requests@.len(),
                0 <= j <= old(self).requests@.len(),
                self.requests@.len() - i == old(self).requests@.len() - j,
                self.max_requests == old(self).max_requests,
                self.window == old(self).window,
                self.requests@.take(i as int) =~= old(self).requests@.take(j).filter(pred),
                self.requests@.skip(i as int) =~= old(self).requests@.skip(j),
                pred == (|t: u64| in_window(t as int, now as int, old(self).window as int)),
            decreases self.requests.len() - i,
        {
            proof {
                reveal(Seq::filter);
                assert(old(self).requests@.take(j + 1).drop_last() =~= old(self).requests@.take(j));
                assert(old(self).requests@.take(j + 1).last() == old(self).requests@[j]);
                assert(self.requests@[i as int] == self.requests@.skip(i as int)[0]);
                assert(self.requests@[i as int] == old(self).requests@[j]);
            }
            let ghost prev = self.requests@;
            let t = self.requests[i];
            let age = if now >= t {
                now - t
            } else {
                0
            };
            if age >= self.window {
                let _ = self.requests.remove(i);
                proof {
                    assert(self.requests@.take(i as int) =~= prev.take(i as int));
                    assert(self.requests@.take(i as int) =~= old(self).requests@.take(j + 1).filter(pred));
                    assert forall|k: int| 0 <= k < self.requests@.skip(i as int).len()
                        implies self.requests@.skip(i as int)[k] == old(self).requests@.skip(j + 1)[k] by {
                        assert(prev.skip(i as int)[k + 1] == old(self).requests@.skip(j)[k + 1]);
                    }
                    assert(self.requests@.skip(i as int) =~= old(self).requests@.skip(j + 1));
                }
            } else {
                i = i + 1;
                proof {
                    assert(self.requests@.take(i as int) =~= self.requests@.take(i - 1).push(
                        self.requests@[i - 1],
                    ));
                    assert(self.requests@.take(i as int) =~= old(self).requests@.take(j + 1).filter(pred));
                    assert forall|k: int| 0 <= k < self.requests@.skip(i as int).len()
                        implies self.requests@.skip(i as int)[k] == old(self).requests@.skip(j + 1)[k] by {
                        assert(prev.skip(i - 1)[k + 1] == old(self).requests@.skip(j)[k + 1]);
                    }
                    assert(self.requests@.skip(i as int) =~= old(self).requests@.skip(j + 1));
                }
            }
            proof {
                j = j + 1;
            }
        }
        proof {
            assert(old(self).requests@.take(j) =~= old(self).requests@);
            assert(self.requests@.take(i as int) =~= self.requests@);
            assert(self.requests@ == old(self).requests@.filter(pred));
        }
        if self.requests.len() < self.max_requests {
            self.requests.push(now);
            true
        } else {
            false
        }
    }

    /// Forgets every stamped request.
    pub fn reset(&mut self)
        ensures
            final(self).max_requests == old(self).max_requests,
            final(self).window == old(self).window,
            final(self).requests@.len() == 0,
    {
        self.requests.clear();
    }
}

} // verus!
