use vstd::prelude::*;

use crate::clock::now_micros;
use crate::error::LWWMapError;
use crate::store::db_contents;
use crate::store::db_entries;
use crate::store::db_fetch;
use crate::store::db_put;
use crate::store::entries_of;
use crate::store::render_snapshot;
use crate::store::snapshot_of;
use crate::store::MapModel;

verus! {

/// One record of the map: the payload together with the wall-clock time,
/// in microseconds since the Unix epoch, of the last write that touched
/// it. The timestamp is only ever compared, never interpreted.
pub struct LWWElement {
    value: String,
    timestamp: i64,
}

impl View for LWWElement {
    type V = (Seq<char>, i64);

    closed spec fn view(&self) -> (Seq<char>, i64) {
        (self.value@, self.timestamp)
    }
}

impl LWWElement {
    /// Wraps a value with the current wall-clock time. Which time the
    /// clock hands out is not specified.
    pub fn new(value: String) -> (r: Self)
        ensures
            r@.0 == value@,
    {
        let timestamp: i64 = now_micros();
        LWWElement { value, timestamp }
    }

    /// The payload.
    pub fn value(&self) -> (r: &String)
        ensures
            r@ == self@.0,
    {
        &self.value
    }

    /// The time of the last write to this record, in microseconds since
    /// the Unix epoch.
    pub fn timestamp(&self) -> (r: i64)
        ensures
            r == self@.1,
    {
        self.timestamp
    }
}

/// The last-writer-wins reconciliation of `a` with `b`, key by key: a key
/// only one side holds keeps that side's element; a key both sides hold
/// keeps `a`'s element unless `b`'s carries a strictly greater timestamp.
/// Ties favor `a`, the receiving side.
pub open spec fn lww_merge(a: MapModel, b: MapModel) -> MapModel {
    Map::new(
        |k: Seq<char>| a.contains_key(k) || b.contains_key(k),
        |k: Seq<char>|
            if a.contains_key(k) {
                if b.contains_key(k) && a[k].1 < b[k].1 {
                    b[k]
                } else {
                    a[k]
                }
            } else {
                b[k]
            },
    )
}

/// What a removal leaves behind: the element keeps its value and takes the
/// removal's timestamp; a key that is absent stays absent.
pub open spec fn lww_removed(m: MapModel, k: Seq<char>, ts: i64) -> MapModel {
    if m.contains_key(k) {
        m.insert(k, (m[k].0, ts))
    } else {
        m
    }
}

/// The keys of the first `n` listed entries.
pub open spec fn keys_before(es: Seq<(String, String, i64)>, n: int) -> Set<Seq<char>> {
    Set::new(|k: Seq<char>| exists|j: int| 0 <= j < n && (#[trigger] es[j]).0@ == k)
}

proof fn lemma_keys_before_step(es: Seq<(String, String, i64)>, i: int)
    requires
        0 <= i < es.len(),
    ensures
        keys_before(es, i + 1) =~= keys_before(es, i).insert(es[i].0@),
{
    assert forall|k: Seq<char>|
        keys_before(es, i + 1).contains(k) <==> keys_before(
            es,
            i,
        ).insert(es[i].0@).contains(k) by {
        if keys_before(es, i + 1).contains(k) {
            let j = choose|j: int| 0 <= j < i + 1 && (#[trigger] es[j]).0@ == k;
            if j < i {
                assert(keys_before(es, i).contains(k));
            } else {
                assert(k == es[i].0@);
            }
        }
        if keys_before(es, i).insert(es[i].0@).contains(k) {
            if k == es[i].0@ {
                assert(0 <= i < i + 1 && es[i].0@ == k);
            } else {
                let j = choose|j: int| 0 <= j < i && (#[trigger] es[j]).0@ == k;
                assert(0 <= j < i + 1 && es[j].0@ == k);
            }
        }
    }
}

/// A persistent last-writer-wins map from text keys to text values, backed
/// by a sled store it holds exclusively. Its view is the mapping the store
/// holds: key to value and timestamp.
pub struct LWWMap {
    db: sled::Db,
}

impl View for LWWMap {
    type V = MapModel;

    closed spec fn view(&self) -> MapModel {
        db_contents(self.db)
    }
}

impl LWWMap {
    /// Attaches a map to an open sled store. The map's contents are
    /// whatever the store already holds.
    pub fn new(db: sled::Db) -> (r: Self)
        ensures
            r@ == db_contents(db),
    {
        LWWMap { db }
    }

    /// Writes `value` under `key` with the caller-supplied timestamp,
    /// unconditionally overwriting any prior element for that key.
    pub fn insert_at(&mut self, key: String, value: String, ts: i64) -> (r: Result<
        (),
        LWWMapError,
    >)
        ensures
            r is Ok ==> final(self)@ == old(self)@.insert(key@, (value@, ts)),
    {
        db_put(&mut self.db, &key, &value, ts)
    }

    /// Writes `value` under `key` at the current wall-clock time. Local
    /// inserts always win locally: any prior element is overwritten,
    /// whatever its timestamp; only merge arbitrates by timestamp.
    pub fn insert(&mut self, key: String, value: String) -> (r: Result<(), LWWMapError>)
        ensures
            r is Ok ==> exists|ts: i64| final(self)@ == old(self)@.insert(key@, (value@, ts)),
    {
        let element = LWWElement::new(value);
        let r = db_put(&mut self.db, &key, &element.value, element.timestamp);
        proof {
            if r is Ok {
                assert(self@ == old(self)@.insert(key@, (element.value@, element.timestamp)));
            }
        }
        r
    }

    /// Marks `key` as removed at the caller-supplied timestamp: the
    /// element keeps its value and takes `ts` as its timestamp. Removing
    /// an absent key changes nothing and is not an error.
    pub fn remove_at(&mut self, key: &String, ts: i64) -> (r: Result<(), LWWMapError>)
        ensures
            r is Ok ==> final(self)@ == lww_removed(old(self)@, key@, ts),
    {
        let cur = match db_fetch(&self.db, key) {
            Ok(c) => c,
            Err(e) => return Err(e),
        };
        match cur {
            Some((value, _)) => db_put(&mut self.db, key, &value, ts),
            None => Ok(()),
        }
    }

    /// Marks `key` as removed at the current wall-clock time. The value is
    /// left in place: removal only refreshes the timestamp, so a later
    /// `get` still answers with the value. Removing an absent key changes
    /// nothing and is not an error.
    pub fn remove(&mut self, key: &String) -> (r: Result<(), LWWMapError>)
        ensures
            r is Ok ==> exists|ts: i64| final(self)@ == lww_removed(old(self)@, key@, ts),
    {
        let ts: i64 = now_micros();
        let r = self.remove_at(key, ts);
        proof {
            if r is Ok {
                assert(self@ == lww_removed(old(self)@, key@, ts));
            }
        }
        r
    }

    /// Reads the value stored under `key`, if any. A removed key still
    /// answers with its value: removal only refreshes the timestamp.
    pub fn get(&self, key: &String) -> (r: Result<Option<String>, LWWMapError>)
        ensures
            r is Ok ==> (r->Ok_0 is Some <==> self@.contains_key(key@)),
            r matches Ok(Some(v)) ==> v@ == self@[key@].0,
    {
        match self.get_element(key) {
            Ok(Some(element)) => Ok(Some(element.value)),
            Ok(None) => Ok(None),
            Err(e) => Err(e),
        }
    }

    /// Reads the full element stored under `key`, timestamp included, if
    /// any.
    pub fn get_element(&self, key: &String) -> (r: Result<Option<LWWElement>, LWWMapError>)
        ensures
            r is Ok ==> (r->Ok_0 is Some <==> self@.contains_key(key@)),
            r matches Ok(Some(e)) ==> e@ == self@[key@],
    {
        match db_fetch(&self.db, key) {
            Ok(Some((value, timestamp))) => Ok(Some(LWWElement { value, timestamp })),
            Ok(None) => Ok(None),
            Err(e) => Err(e),
        }
    }

    /// Folds every entry of `other` into this map under the
    /// last-writer-wins rule: a key this map lacks is adopted from
    /// `other`; a key both maps hold keeps the element with the strictly
    /// greater timestamp, the local one on a tie. Keys `other` lacks are
    /// never touched: the merge is a union, not a replacement. A failure
    /// aborts the merge at once; entries already folded in stay.
    pub fn merge(&mut self, other: &LWWMap) -> (r: Result<(), LWWMapError>)
        ensures
            r is Ok ==> final(self)@ == lww_merge(old(self)@, other@),
    {
        let ghost m0 = self@;
        let entries = match db_entries(&other.db) {
            Ok(es) => es,
            Err(e) => return Err(e),
        };
        let mut i: usize = 0;
        while i < entries.len()
            invariant
                entries_of(entries@, other@),
                i <= entries.len(),
                self@ == lww_merge(m0, other@.restrict(keys_before(entries@, i as int))),
            decreases entries@.len() - i,
        {
            let ghost k = entries@[i as int].0@;
            let e = &entries[i];
            let cur = match db_fetch(&self.db, &e.0) {
                Ok(c) => c,
                Err(err) => return Err(err),
            };
            match cur {
                None => {
                    match db_put(&mut self.db, &e.0, &e.1, e.2) {
                        Ok(()) => {},
                        Err(err) => return Err(err),
                    };
                },
                Some((_, local_ts)) => {
                    if local_ts < e.2 {
                        match db_put(&mut self.db, &e.0, &e.1, e.2) {
                            Ok(()) => {},
                            Err(err) => return Err(err),
                        };
                    }
                },
            }
            proof {
                lemma_keys_before_step(entries@, i as int);
                assert(!keys_before(entries@, i as int).contains(k));
                assert(self@ =~= lww_merge(
                    m0,
                    other@.restrict(keys_before(entries@, i as int + 1)),
                ));
            }
            i = i + 1;
        }
        proof {
            assert(other@.restrict(keys_before(entries@, entries@.len() as int)) =~= other@);
        }
        Ok(())
    }

    /// Renders the whole map as one JSON object for inspection: each key
    /// mapped to its element, value and timestamp included. The text is
    /// the codec's rendering of this map's entries.
    pub fn to_json(&self) -> (r: Result<String, LWWMapError>)
        ensures
            r matches Ok(s) ==> exists|es: Seq<(String, String, i64)>|
                entries_of(es, self@) && s@ == snapshot_of(es),
    {
        let entries = match db_entries(&self.db) {
            Ok(es) => es,
            Err(e) => return Err(e),
        };
        let r = render_snapshot(&entries);
        proof {
            if r is Ok {
                assert(entries_of(entries@, self@) && r->Ok_0@ == snapshot_of(entries@));
            }
        }
        r
    }
}

} // verus!
