//! The weather cache store: the authoritative holder of cached records and
//! the single source of truth for freshness decisions.
//!
//! The store is a map from canonical location keys to records, viewed in
//! contracts as a `Map<Seq<char>, Weather>`. Inserting is an upsert: at most
//! one record exists per key at any instant, and a refresh replaces the old
//! record wholesale. A record is fresh while its age — the caller's clock
//! minus its creation timestamp — is below the time-to-live; `lookup` treats
//! a stale record as absent, and `prune` deletes every stale record.
//!
//! This is the in-memory variant of the store: pure data-structure logic
//! with no failure mode of its own. Timestamps are Unix milliseconds.

use crate::units::temp_ok;
use vstd::prelude::*;
use vstd::set::axiom_set_insert_len;

verus! {

/// The time-to-live of a cached record: one minute, in milliseconds.
pub const TTL_MILLIS: i64 = 60_000;

/// A record is fresh while its age is strictly below the time-to-live.
pub open spec fn is_fresh(created_at: int, now: int) -> bool {
    now - created_at < TTL_MILLIS
}

/// A cached, fully-assembled weather observation for one location key.
///
/// `id` is the canonical key text, `location` the human-readable place name.
/// The temperature fields are thousandths of a degree Celsius, wind speed
/// thousandths of a unit, humidity and precipitation probability thousandths
/// of a percent; `weather_code` is the provider's condition code, and the
/// timestamps are Unix milliseconds.
#[derive(Debug)]
pub struct Weather {
    pub id: String,
    pub location: String,
    pub temperature_2m: i64,
    pub wind_speed_10m: i64,
    pub weather_code: i32,
    pub relative_humidity_2m: i64,
    pub apparent_temperature: i64,
    pub precipitation_probability: i64,
    pub created_at: i64,
    pub updated_at: i64,
}

impl Clone for Weather {
    fn clone(&self) -> (r: Self)
        ensures
            r == *self,
    {
        Weather {
            id: self.id.clone(),
            location: self.location.clone(),
            temperature_2m: self.temperature_2m,
            wind_speed_10m: self.wind_speed_10m,
            weather_code: self.weather_code,
            relative_humidity_2m: self.relative_humidity_2m,
            apparent_temperature: self.apparent_temperature,
            precipitation_probability: self.precipitation_probability,
            created_at: self.created_at,
            updated_at: self.updated_at,
        }
    }
}

// ---------------------------------------------------------------------------
// The map view of a sequence of records
// ---------------------------------------------------------------------------

spec fn seq_has_key(s: Seq<Weather>, k: Seq<char>) -> bool {
    exists|i: int| 0 <= i < s.len() && #[trigger] s[i].id@ == k
}

spec fn seq_idx_of(s: Seq<Weather>, k: Seq<char>) -> int {
    choose|i: int| 0 <= i < s.len() && #[trigger] s[i].id@ == k
}

spec fn seq_view(s: Seq<Weather>) -> Map<Seq<char>, Weather> {
    Map::new(|k: Seq<char>| seq_has_key(s, k), |k: Seq<char>| s[seq_idx_of(s, k)])
}

/// Well-formed backing: keys pairwise distinct, temperatures convertible.
spec fn seq_wf(s: Seq<Weather>) -> bool {
    &&& forall|i: int, j: int|
        0 <= i < j < s.len() ==> #[trigger] s[i].id@ != #[trigger] s[j].id@
    &&& forall|i: int| 0 <= i < s.len() ==> temp_ok(#[trigger] s[i].temperature_2m as int)
}

proof fn lemma_view_at(s: Seq<Weather>, i: int)
    requires
        seq_wf(s),
        0 <= i < s.len(),
    ensures
        seq_view(s).dom().contains(s[i].id@),
        seq_view(s)[s[i].id@] == s[i],
{
    let k = s[i].id@;
    assert(seq_has_key(s, k));
    let j = seq_idx_of(s, k);
    assert(0 <= j < s.len() && s[j].id@ == k);
    assert(j == i);
}

/// What remains of a cache map after deleting every record that is stale at
/// the given instant.
pub open spec fn pruned_map(m: Map<Seq<char>, Weather>, now: int) -> Map<Seq<char>, Weather> {
    Map::new(
        |k: Seq<char>| m.dom().contains(k) && is_fresh(m[k].created_at as int, now),
        |k: Seq<char>| m[k],
    )
}

/// Upserting twice under one key leaves exactly the second record: the first
/// write is superseded wholesale, with no merge of old and new values.
pub proof fn lemma_upsert_overwrite(m: Map<Seq<char>, Weather>, r1: Weather, r2: Weather)
    requires
        r1.id@ == r2.id@,
    ensures
        m.insert(r1.id@, r1).insert(r2.id@, r2) == m.insert(r2.id@, r2),
        m.insert(r1.id@, r1).insert(r2.id@, r2)[r2.id@] == r2,
{
    assert(m.insert(r1.id@, r1).insert(r2.id@, r2) =~= m.insert(r2.id@, r2));
}

// ---------------------------------------------------------------------------
// The store
// ---------------------------------------------------------------------------

/// The shared cache of weather records, keyed by canonical location key.
pub struct WeatherStore {
    entries: Vec<Weather>,
}

impl View for WeatherStore {
    type V = Map<Seq<char>, Weather>;

    closed spec fn view(&self) -> Map<Seq<char>, Weather> {
        seq_view(self.entries@)
    }
}

impl WeatherStore {
    #[verifier::type_invariant]
    spec fn inv(self) -> bool {
        seq_wf(self.entries@)
    }

    /// An empty cache.
    pub fn new() -> (s: Self)
        ensures
            s@ == Map::<Seq<char>, Weather>::empty(),
    {
        let s = WeatherStore { entries: Vec::new() };
        proof {
            assert(s@ =~= Map::<Seq<char>, Weather>::empty());
        }
        s
    }

    /// How many records the cache holds, fresh or stale.
    pub fn len(&self) -> (n: usize)
        ensures
            n == self@.dom().len(),
    {
        proof {
            use_type_invariant(self);
            lemma_view_card(self.entries@);
        }
        self.entries.len()
    }

    /// Returns a copy of the record under the key only while that record is
    /// fresh at `now`; a stale record is reported as a miss even though it
    /// still physically exists until pruned.
    pub fn lookup(&self, id: &String, now: i64) -> (r: Option<Weather>)
        ensures
            r == (if self@.dom().contains(id@) && is_fresh(
                self@[id@].created_at as int,
                now as int,
            ) {
                Some(self@[id@])
            } else {
                None::<Weather>
            }),
            r matches Some(w) ==> temp_ok(w.temperature_2m as int),
    {
        proof {
            use_type_invariant(self);
        }
        let n = self.entries.len();
        let mut i: usize = 0;
        while i < n
            invariant
                0 <= i <= n,
                n == self.entries@.len(),
                forall|j: int| 0 <= j < i ==> #[trigger] self.entries@[j].id@ != id@,
            ensures
                0 <= i <= n,
                n == self.entries@.len(),
                forall|j: int| 0 <= j < i ==> #[trigger] self.entries@[j].id@ != id@,
                i < n ==> self.entries@[i as int].id@ == id@,
            decreases n - i,
        {
            if self.entries[i].id == *id {
                break ;
            }
            i += 1;
        }
        if i < n {
            proof {
                lemma_view_at(self.entries@, i as int);
            }
            if fresh_at(self.entries[i].created_at, now) {
                Some(self.entries[i].clone())
            } else {
                None
            }
        } else {
            proof {
                if seq_has_key(self.entries@, id@) {
                    let j = seq_idx_of(self.entries@, id@);
                    assert(0 <= j < n && self.entries@[j].id@ == id@);
                }
            }
            None
        }
    }

    /// Inserts a record under its own key, replacing any record already
    /// there: an upsert, last writer wins, no merge of old and new values.
    pub fn insert(&mut self, rec: Weather)
        requires
            temp_ok(rec.temperature_2m as int),
        ensures
            final(self)@ == old(self)@.insert(rec.id@, rec),
    {
        proof {
            use_type_invariant(&*self);
        }
        let ghost s0 = self.entries@;
        let n = self.entries.len();
        let mut i: usize = 0;
        while i < n
            invariant
                0 <= i <= n,
                n == self.entries@.len(),
                forall|j: int| 0 <= j < i ==> #[trigger] self.entries@[j].id@ != rec.id@,
            ensures
                0 <= i <= n,
                n == self.entries@.len(),
                self.entries@ == old(self).entries@,
                forall|j: int| 0 <= j < i ==> #[trigger] self.entries@[j].id@ != rec.id@,
                i < n ==> self.entries@[i as int].id@ == rec.id@,
            decreases n - i,
        {
            if self.entries[i].id == rec.id {
                break ;
            }
            i += 1;
        }
        let mut v: Vec<Weather> = Vec::new();
        core::mem::swap(&mut self.entries, &mut v);
        if i < n {
            v.set(i, rec);
            proof {
                lemma_view_update(s0, i as int, v@[i as int]);
            }
        } else {
            v.push(rec);
            proof {
                lemma_view_push(s0, v@[n as int]);
            }
        }
        self.entries = v;
    }

    /// Deletes every record that is stale at `now` and keeps every fresh
    /// one, leaving the fresh records' contents untouched.
    pub fn prune(&mut self, now: i64)
        ensures
            final(self)@ == pruned_map(old(self)@, now as int),
    {
        proof {
            use_type_invariant(&*self);
        }
        let ghost s0 = self.entries@;
        let mut kept: Vec<Weather> = Vec::new();
        let ghost mut src: Seq<int> = Seq::empty();
        let n = self.entries.len();
        let mut i: usize = 0;
        while i < n
            invariant
                0 <= i <= n,
                n == self.entries@.len(),
                self.entries@ == s0,
                seq_wf(s0),
                src.len() == kept@.len(),
                forall|a: int|
                    0 <= a < src.len() ==> 0 <= #[trigger] src[a] < i && kept@[a] == s0[src[a]]
                        && is_fresh(s0[src[a]].created_at as int, now as int),
                forall|a: int, b: int| 0 <= a < b < src.len() ==> src[a] < src[b],
                forall|j: int|
                    0 <= j < i && is_fresh(#[trigger] s0[j].created_at as int, now as int)
                        ==> exists|a: int| 0 <= a < src.len() && #[trigger] src[a] == j,
            decreases n - i,
        {
            if fresh_at(self.entries[i].created_at, now) {
                kept.push(self.entries[i].clone());
                proof {
                    let src0 = src;
                    src = src.push(i as int);
                    assert(src[src.len() - 1] == i as int);
                    assert forall|j: int|
                        0 <= j < i && is_fresh(
                            #[trigger] s0[j].created_at as int,
                            now as int,
                        ) implies exists|a: int|
                        0 <= a < src.len() && #[trigger] src[a] == j by {
                        let a = choose|a: int| 0 <= a < src0.len() && #[trigger] src0[a] == j;
                        assert(src[a] == j);
                    }
                }
            }
            i += 1;
        }
        proof {
            lemma_kept_view(s0, kept@, src, now as int);
        }
        self.entries = kept;
    }
}

fn fresh_at(created_at: i64, now: i64) -> (r: bool)
    ensures
        r == is_fresh(created_at as int, now as int),
{
    (now as i128) - (created_at as i128) < (TTL_MILLIS as i128)
}

// ---------------------------------------------------------------------------
// Proofs about the backing sequence
// ---------------------------------------------------------------------------

proof fn lemma_view_update(s: Seq<Weather>, i: int, rec: Weather)
    requires
        seq_wf(s),
        0 <= i < s.len(),
        s[i].id@ == rec.id@,
        temp_ok(rec.temperature_2m as int),
    ensures
        seq_wf(s.update(i, rec)),
        seq_view(s.update(i, rec)) == seq_view(s).insert(rec.id@, rec),
{
    let v = s.update(i, rec);
    assert(forall|j: int| 0 <= j < v.len() ==> #[trigger] v[j].id@ == s[j].id@);
    assert(seq_wf(v));
    assert forall|k: Seq<char>| seq_has_key(v, k) == seq_has_key(s, k) by {
        if seq_has_key(v, k) {
            let a = seq_idx_of(v, k);
            assert(0 <= a < v.len() && v[a].id@ == k);
            assert(s[a].id@ == k);
        }
        if seq_has_key(s, k) {
            let a = seq_idx_of(s, k);
            assert(0 <= a < s.len() && s[a].id@ == k);
            assert(v[a].id@ == k);
        }
    }
    assert(seq_view(v) =~= seq_view(s).insert(rec.id@, rec)) by {
        assert forall|k: Seq<char>| #[trigger]
            seq_view(v).dom().contains(k) implies seq_view(v)[k] == seq_view(s).insert(
            rec.id@,
            rec,
        )[k] by {
            let a = seq_idx_of(v, k);
            assert(0 <= a < v.len() && v[a].id@ == k);
            lemma_view_at(v, a);
            if k == rec.id@ {
                assert(a == i);
            } else {
                assert(a != i);
                lemma_view_at(s, a);
            }
        }
        assert(seq_has_key(v, rec.id@)) by {
            assert(v[i].id@ == rec.id@);
        }
    }
}

proof fn lemma_view_push(s: Seq<Weather>, rec: Weather)
    requires
        seq_wf(s),
        forall|j: int| 0 <= j < s.len() ==> #[trigger] s[j].id@ != rec.id@,
        temp_ok(rec.temperature_2m as int),
    ensures
        seq_wf(s.push(rec)),
        seq_view(s.push(rec)) == seq_view(s).insert(rec.id@, rec),
{
    let v = s.push(rec);
    assert(forall|j: int| 0 <= j < s.len() ==> #[trigger] v[j] == s[j]);
    assert(v[s.len() as int] == rec);
    assert(seq_wf(v));
    assert(seq_view(v) =~= seq_view(s).insert(rec.id@, rec)) by {
        assert forall|k: Seq<char>| seq_has_key(v, k) == (seq_has_key(s, k) || k == rec.id@) by {
            if seq_has_key(v, k) {
                let a = seq_idx_of(v, k);
                assert(0 <= a < v.len() && v[a].id@ == k);
                if a < s.len() {
                    assert(s[a].id@ == k);
                }
            }
            if seq_has_key(s, k) {
                let a = seq_idx_of(s, k);
                assert(0 <= a < s.len() && s[a].id@ == k);
                assert(v[a].id@ == k);
            }
            assert(v[s.len() as int].id@ == rec.id@);
        }
        assert forall|k: Seq<char>| #[trigger]
            seq_view(v).dom().contains(k) implies seq_view(v)[k] == seq_view(s).insert(
            rec.id@,
            rec,
        )[k] by {
            let a = seq_idx_of(v, k);
            assert(0 <= a < v.len() && v[a].id@ == k);
            lemma_view_at(v, a);
            if k == rec.id@ {
                assert(a == s.len());
            } else {
                assert(a < s.len());
                lemma_view_at(s, a);
            }
        }
    }
}

proof fn lemma_kept_view(s0: Seq<Weather>, kept: Seq<Weather>, src: Seq<int>, now: int)
    requires
        seq_wf(s0),
        src.len() == kept.len(),
        forall|a: int|
            0 <= a < src.len() ==> 0 <= #[trigger] src[a] < s0.len() && kept[a] == s0[src[a]]
                && is_fresh(s0[src[a]].created_at as int, now),
        forall|a: int, b: int| 0 <= a < b < src.len() ==> src[a] < src[b],
        forall|j: int|
            0 <= j < s0.len() && is_fresh(#[trigger] s0[j].created_at as int, now) ==> exists|
                a: int,
            | 0 <= a < src.len() && #[trigger] src[a] == j,
    ensures
        seq_wf(kept),
        seq_view(kept) == pruned_map(seq_view(s0), now),
{
    assert forall|a: int, b: int| 0 <= a < b < kept.len() implies #[trigger] kept[a].id@
        != #[trigger] kept[b].id@ by {
        assert(src[a] < src[b]);
    }
    assert forall|a: int| 0 <= a < kept.len() implies temp_ok(
        #[trigger] kept[a].temperature_2m as int,
    ) by {
        assert(kept[a] == s0[src[a]]);
    }
    assert(seq_wf(kept));
    assert forall|k: Seq<char>| seq_has_key(kept, k) == (seq_has_key(s0, k) && is_fresh(
        seq_view(s0)[k].created_at as int,
        now,
    )) by {
        if seq_has_key(kept, k) {
            let a = seq_idx_of(kept, k);
            assert(0 <= a < kept.len() && kept[a].id@ == k);
            let j = src[a];
            assert(kept[a] == s0[j]);
            assert(s0[j].id@ == k);
            lemma_view_at(s0, j);
        }
        if seq_has_key(s0, k) {
            let j = seq_idx_of(s0, k);
            assert(0 <= j < s0.len() && s0[j].id@ == k);
            lemma_view_at(s0, j);
            if is_fresh(seq_view(s0)[k].created_at as int, now) {
                let a = choose|a: int| 0 <= a < src.len() && #[trigger] src[a] == j;
                assert(kept[a] == s0[j]);
                assert(kept[a].id@ == k);
            }
        }
    }
    assert(seq_view(kept) =~= pruned_map(seq_view(s0), now)) by {
        assert forall|k: Seq<char>| #[trigger]
            seq_view(kept).dom().contains(k) implies seq_view(kept)[k] == seq_view(s0)[k] by {
            let a = seq_idx_of(kept, k);
            assert(0 <= a < kept.len() && kept[a].id@ == k);
            lemma_view_at(kept, a);
            let j = src[a];
            assert(kept[a] == s0[j]);
            lemma_view_at(s0, j);
        }
    }
}

proof fn lemma_view_card(s: Seq<Weather>)
    requires
        seq_wf(s),
    ensures
        seq_view(s).dom().finite(),
        seq_view(s).dom().len() == s.len(),
    decreases s.len(),
{
    if s.len() == 0 {
        assert(seq_view(s).dom() =~= Set::<Seq<char>>::empty()) by {
            assert forall|k: Seq<char>| !seq_has_key(s, k) by {
                if seq_has_key(s, k) {
                    let a = seq_idx_of(s, k);
                    assert(0 <= a < s.len());
                }
            }
        }
    } else {
        let t = s.drop_last();
        let last = s.last();
        assert(seq_wf(t)) by {
            assert(forall|j: int| 0 <= j < t.len() ==> #[trigger] t[j] == s[j]);
        }
        lemma_view_card(t);
        assert(seq_view(s).dom() =~= seq_view(t).dom().insert(last.id@)) by {
            assert forall|k: Seq<char>| seq_has_key(s, k) == (seq_has_key(t, k) || k
                == last.id@) by {
                if seq_has_key(s, k) {
                    let a = seq_idx_of(s, k);
                    assert(0 <= a < s.len() && s[a].id@ == k);
                    if a < t.len() {
                        assert(t[a].id@ == k);
                    }
                }
                if seq_has_key(t, k) {
                    let a = seq_idx_of(t, k);
                    assert(0 <= a < t.len() && t[a].id@ == k);
                    assert(s[a].id@ == k);
                }
                assert(s[s.len() - 1].id@ == last.id@);
            }
        }
        assert(!seq_view(t).dom().contains(last.id@)) by {
            if seq_has_key(t, last.id@) {
                let a = seq_idx_of(t, last.id@);
                assert(0 <= a < t.len() && t[a].id@ == last.id@);
                assert(s[a].id@ == s[s.len() - 1].id@);
            }
        }
        axiom_set_insert_len(seq_view(t).dom(), last.id@);
    }
}

} // verus!
