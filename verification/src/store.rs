use vstd::prelude::*;

use serde::de::Error as _;
use serde_json::Value;

use crate::error::LWWMapError;
use crate::error::LWWMapError::SerdeError;
use crate::error::LWWMapError::SledError;

verus! {

/// The backing store's handle type, declared so that the map can own one
/// and hand it to the trusted calls below.
#[verifier::external_type_specification]
#[verifier::external_body]
pub struct ExDb(sled::Db);

/// The mathematical contents of a map: each key, as text, mapped to its
/// element's value and timestamp (microseconds since the Unix epoch).
pub type MapModel = Map<Seq<char>, (Seq<char>, i64)>;

/// What the backing store holds, read through the codec: the partial map
/// that sends each text key whose canonical JSON encoding is present as a
/// byte key, and whose stored bytes decode as an element, to that
/// element's value and timestamp. A byte key in any other form stands for
/// no text key: lookups miss it and the full scan refuses it.
pub uninterp spec fn db_contents(db: sled::Db) -> MapModel;

/// The sequence `es` lists exactly the entries of `m`: every listed entry
/// is in `m`, every key of `m` is listed, and no key is listed twice.
pub open spec fn entries_of(es: Seq<(String, String, i64)>, m: MapModel) -> bool {
    &&& forall|i: int| 0 <= i < es.len() ==>
            m.contains_key((#[trigger] es[i]).0@) && m[es[i].0@] == (es[i].1@, es[i].2)
    &&& forall|k: Seq<char>| #[trigger] m.contains_key(k) ==>
            exists|i: int| 0 <= i < es.len() && (#[trigger] es[i]).0@ == k
    &&& forall|i: int, j: int| 0 <= i < j < es.len() ==>
            (#[trigger] es[i]).0@ != (#[trigger] es[j]).0@
}

/// The text the codec produces for a listing of entries: a single JSON
/// object mapping each key to its element. A function of the entries
/// alone, since the codec's object type keeps its keys in sorted order.
pub uninterp spec fn snapshot_of(es: Seq<(String, String, i64)>) -> Seq<char>;

/// Relies on serde_json::to_vec and sled::Tree::insert: stores the element
/// for `key`, overwriting any prior one. The key goes in under its
/// canonical JSON encoding; the element as a JSON object with fields
/// `value` and `timestamp`.
#[verifier::external_body]
pub(crate) fn db_put(db: &mut sled::Db, key: &String, value: &String, ts: i64) -> (r: Result<
    (),
    LWWMapError,
>)
    ensures
        r is Ok ==> db_contents(*final(db)) == db_contents(*old(db)).insert(key@, (value@, ts)),
{
    let kb = serde_json::to_vec(key).map_err(SerdeError)?;
    let mut el = serde_json::Map::new();
    el.insert("value".to_string(), Value::String(value.clone()));
    el.insert("timestamp".to_string(), Value::from(ts));
    let vb = serde_json::to_vec(&Value::Object(el)).map_err(SerdeError)?;
    db.insert(kb, vb).map_err(SledError)?;
    Ok(())
}

/// Relies on sled::Tree::get and serde_json::from_slice: looks `key` up
/// under its canonical JSON encoding and decodes the element found there,
/// failing cleanly on malformed bytes.
#[verifier::external_body]
pub(crate) fn db_fetch(db: &sled::Db, key: &String) -> (r: Result<
    Option<(String, i64)>,
    LWWMapError,
>)
    ensures
        r is Ok ==> (r->Ok_0 is Some <==> db_contents(*db).contains_key(key@)),
        r matches Ok(Some(p)) ==> db_contents(*db)[key@] == (p.0@, p.1),
{
    let kb = serde_json::to_vec(key).map_err(SerdeError)?;
    let bytes = match db.get(kb).map_err(SledError)? {
        Some(b) => b,
        None => return Ok(None),
    };
    let v: Value = serde_json::from_slice(&bytes).map_err(SerdeError)?;
    match (v.get("value").and_then(Value::as_str), v.get("timestamp").and_then(Value::as_i64)) {
        (Some(value), Some(ts)) => Ok(Some((value.to_string(), ts))),
        _ => Err(SerdeError(serde_json::Error::custom("bad element"))),
    }
}

/// Relies on sled::Tree::iter, serde_json::from_slice and
/// serde_json::to_vec: walks the whole store and decodes every pair,
/// refusing a byte key that is not the canonical encoding of its decoded
/// text. sled yields each byte key exactly once and canonical encoding is
/// injective, so the listed keys are pairwise distinct and are exactly
/// the keys the model holds.
#[verifier::external_body]
pub(crate) fn db_entries(db: &sled::Db) -> (r: Result<Vec<(String, String, i64)>, LWWMapError>)
    ensures
        r matches Ok(es) ==> entries_of(es@, db_contents(*db)),
{
    let mut out = Vec::new();
    for pair in db.iter() {
        let (kb, vb) = pair.map_err(SledError)?;
        let key: String = serde_json::from_slice(&kb).map_err(SerdeError)?;
        if serde_json::to_vec(&key).map_err(SerdeError)?.as_slice() != kb.as_ref() {
            return Err(SerdeError(serde_json::Error::custom("bad key")));
        }
        let v: Value = serde_json::from_slice(&vb).map_err(SerdeError)?;
        match (v.get("value").and_then(Value::as_str), v.get("timestamp").and_then(Value::as_i64)) {
            (Some(value), Some(ts)) => out.push((key, value.to_string(), ts)),
            _ => return Err(SerdeError(serde_json::Error::custom("bad element"))),
        }
    }
    Ok(out)
}

/// Relies on serde_json::to_string over serde_json's map type, which keeps
/// its keys sorted: renders the entries as one JSON object, each key
/// mapped to an object with fields `value` and `timestamp`.
#[verifier::external_body]
pub(crate) fn render_snapshot(entries: &Vec<(String, String, i64)>) -> (r: Result<
    String,
    LWWMapError,
>)
    ensures
        r matches Ok(s) ==> s@ == snapshot_of(entries@),
{
    let mut root = serde_json::Map::new();
    for e in entries.iter() {
        let mut el = serde_json::Map::new();
        el.insert("value".to_string(), Value::String(e.1.clone()));
        el.insert("timestamp".to_string(), Value::from(e.2));
        root.insert(e.0.clone(), Value::Object(el));
    }
    serde_json::to_string(&Value::Object(root)).map_err(SerdeError)
}

} // verus!
