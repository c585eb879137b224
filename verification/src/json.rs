//! The port map as a JSON document: the table that the generation pass
//! writes and that a run reads its reverse-proxy port from.

use vstd::prelude::*;
use vstd::string::StringExecFns;
use crate::strmap::{
    StrMap, among, has_key, keys_are, lemma_keys_grow, lemma_put_sorted, lookup, sorted,
};

verus! {

/// `serde_json::Value`, a JSON value: carried through as it is, and read only
/// through the functions below.
#[verifier::external_type_specification]
#[verifier::external_body]
pub struct ExJsonValue(serde_json::Value);

/// `serde_json::Map`, a JSON object: carried through as it is, and read and
/// filled only through the functions below.
#[verifier::external_type_specification]
#[verifier::external_body]
#[verifier::reject_recursive_types(K)]
#[verifier::reject_recursive_types(V)]
pub struct ExJsonMap<K, V>(serde_json::Map<K, V>);

/// What the library reads in a JSON value.
pub enum JsonView {
    /// A number that is an unsigned integer.
    Unsigned(u64),
    /// An object, by its members.
    Object(Map<Seq<char>, JsonView>),
    /// Anything else: null, a truth value, a string, an array, a number that
    /// is negative or has a fraction.
    Other,
}

/// What a JSON value holds.
pub uninterp spec fn json_view(v: serde_json::Value) -> JsonView;

/// What a JSON object holds: its members by key.
pub uninterp spec fn json_members(m: serde_json::Map<String, serde_json::Value>) -> Map<
    Seq<char>,
    JsonView,
>;

/// The members of an empty object.
pub open spec fn no_members() -> Map<Seq<char>, JsonView> {
    Map::empty()
}

/// `serde_json::Map::new`: an object without members.
#[verifier::external_body]
pub(crate) fn new_object() -> (r: serde_json::Map<String, serde_json::Value>)
    ensures
        json_members(r) == no_members(),
{
    serde_json::Map::new()
}

/// `serde_json::Map::insert`: binds `key` to `value`, in place of what `key`
/// was bound to before, and leaves the other members alone.
#[verifier::external_body]
pub(crate) fn object_insert(
    m: &mut serde_json::Map<String, serde_json::Value>,
    key: String,
    value: serde_json::Value,
)
    ensures
        json_members(*final(m)) == json_members(*old(m)).insert(key@, json_view(value)),
{
    m.insert(key, value);
}

/// `serde_json::Number::from` for `u16`, inside `Value::Number`: the value is
/// the unsigned integer `n`.
#[verifier::external_body]
pub(crate) fn number_value(n: u16) -> (v: serde_json::Value)
    ensures
        json_view(v) == JsonView::Unsigned(n as u64),
{
    serde_json::Value::Number(serde_json::Number::from(n))
}

/// `Value::Object`: the value is the object `m`.
#[verifier::external_body]
pub(crate) fn object_value(m: serde_json::Map<String, serde_json::Value>) -> (v: serde_json::Value)
    ensures
        json_view(v) == JsonView::Object(json_members(m)),
{
    serde_json::Value::Object(m)
}

/// `Value::get` with a string key: the member `key` of an object, and
/// nothing for a missing member or for a value that is no object.
#[verifier::external_body]
pub(crate) fn member<'a>(v: &'a serde_json::Value, key: &str) -> (r: Option<&'a serde_json::Value>)
    ensures
        match json_view(*v) {
            JsonView::Object(m) => if m.contains_key(key@) {
                r is Some && json_view(*r->0) == m[key@]
            } else {
                r is None
            },
            _ => r is None,
        },
{
    v.get(key)
}

/// `Value::as_u64`: the number where the value is an unsigned integer,
/// nothing otherwise.
#[verifier::external_body]
pub(crate) fn as_unsigned(v: &serde_json::Value) -> (r: Option<u64>)
    ensures
        r == match json_view(*v) {
            JsonView::Unsigned(n) => Some(n),
            _ => None,
        },
{
    v.as_u64()
}

/// The port that the table `doc` holds for `folder` under `domain`.
pub open spec fn port_in(doc: JsonView, domain: Seq<char>, folder: Seq<char>) -> Option<u64> {
    match doc {
        JsonView::Object(domains) => if domains.contains_key(domain) {
            match domains[domain] {
                JsonView::Object(folders) => if folders.contains_key(folder) {
                    match folders[folder] {
                        JsonView::Unsigned(n) => Some(n),
                        _ => None,
                    }
                } else {
                    None
                },
                _ => None,
            }
        } else {
            None
        },
        _ => None,
    }
}

/// Looks the reverse-proxy port of a service folder up in the port map.
pub fn lookup_port(doc: &serde_json::Value, domain: &str, folder: &str) -> (r: Option<u64>)
    ensures
        r == port_in(json_view(*doc), domain@, folder@),
{
    match member(doc, domain) {
        Some(d) => match member(d, folder) {
            Some(p) => as_unsigned(p),
            None => None,
        },
        None => None,
    }
}

/// `Value::as_object`: the object where the value is one, nothing otherwise.
#[verifier::external_body]
pub(crate) fn as_object<'a>(v: &'a serde_json::Value) -> (r: Option<
    &'a serde_json::Map<String, serde_json::Value>,
>)
    ensures
        match json_view(*v) {
            JsonView::Object(m) => r is Some && json_members(*r->0) == m,
            _ => r is None,
        },
{
    v.as_object()
}

/// `serde_json::Map::keys`: the keys of the object's members, each of them
/// and no other, in the order in which the map hands them out.
#[verifier::external_body]
pub(crate) fn object_keys(m: &serde_json::Map<String, serde_json::Value>) -> (r: Vec<String>)
    ensures
        forall|k: Seq<char>|
            json_members(*m).contains_key(k) <==> exists|i: int|
                0 <= i < r@.len() && (#[trigger] r@[i])@ == k,
{
    m.keys().cloned().collect()
}

/// `serde_json::Map::get`: the member `key`, nothing where there is none.
#[verifier::external_body]
pub(crate) fn object_get<'a>(m: &'a serde_json::Map<String, serde_json::Value>, key: &str) -> (r:
    Option<&'a serde_json::Value>)
    ensures
        json_members(*m).contains_key(key@) ==> r is Some && json_view(*r->0) == json_members(
            *m,
        )[key@],
        !json_members(*m).contains_key(key@) ==> r is None,
{
    m.get(key)
}

/// The port that a member of a domain's entry stands for: its number, or 0
/// where it is no unsigned integer.
pub open spec fn port_or_zero(v: JsonView) -> u64 {
    match v {
        JsonView::Unsigned(n) => n,
        _ => 0,
    }
}

/// The members of `v`, none where `v` is no object.
pub open spec fn members_of(v: JsonView) -> Map<Seq<char>, JsonView> {
    match v {
        JsonView::Object(m) => m,
        _ => Map::empty(),
    }
}

/// `ports` holds a port for each member of `v`, and nothing else.
pub open spec fn is_ports_of(ports: Seq<(Seq<char>, u64)>, v: JsonView) -> bool {
    &&& sorted(ports)
    &&& forall|f: Seq<char>| has_key(ports, f) <==> members_of(v).contains_key(f)
    &&& forall|f: Seq<char>|
        members_of(v).contains_key(f) ==> lookup(ports, f) == Some(
            port_or_zero(members_of(v)[f]),
        )
}

/// `table` holds the ports of each member of `doc`, and nothing else.
pub open spec fn is_table_of(table: Seq<(Seq<char>, StrMap<u64>)>, doc: JsonView) -> bool {
    &&& sorted(table)
    &&& forall|d: Seq<char>| has_key(table, d) <==> members_of(doc).contains_key(d)
    &&& forall|d: Seq<char>|
        members_of(doc).contains_key(d) ==> is_ports_of((#[trigger] lookup(table, d))->0@, members_of(doc)[d])
}

/// The ports of one domain's entry of the port map, by folder, in the order
/// of the folders' names.
pub fn folder_table(entry: &serde_json::Value) -> (r: StrMap<u64>)
    ensures
        is_ports_of(r@, json_view(*entry)),
{
    let mut out: StrMap<u64> = StrMap::new();
    let m = match as_object(entry) {
        Some(m) => m,
        None => {
            return out;
        },
    };
    let keys = object_keys(m);
    let n: usize = keys.len();
    let mut i: usize = 0;
    let ghost mem = json_members(*m);
    while i < n
        invariant
            n == keys@.len(),
            i <= n,
            mem == json_members(*m),
            mem == members_of(json_view(*entry)),
            forall|k: Seq<char>| mem.contains_key(k) <==> among(keys@, keys@.len() as int, k),
            sorted(out@),
            keys_are(out@, keys@, i as int),
            forall|f: Seq<char>| has_key(out@, f) ==> lookup(out@, f) == Some(port_or_zero(mem[f])),
        decreases n - i,
    {
        let key = keys[i].as_str();
        assert(among(keys@, keys@.len() as int, key@));
        let port: u64 = match object_get(m, key) {
            Some(v) => match as_unsigned(v) {
                Some(p) => p,
                None => 0,
            },
            None => 0,
        };
        let ghost before = out@;
        proof {
            lemma_put_sorted(before, key@, port);
        }
        let (next, _) = out.insert(String::from_str(key), port);
        out = next;
        proof {
            assert(port == port_or_zero(mem[key@]));
            assert forall|f: Seq<char>| has_key(out@, f) implies lookup(out@, f) == Some(
                port_or_zero(mem[f]),
            ) by {
                if f != key@ {
                    assert(lookup(out@, f) == lookup(before, f));
                    assert(has_key(before, f));
                }
            }
            lemma_keys_grow(before, out@, keys@, i as int);
        }
        i = i + 1;
    }
    out
}

/// The port map as an ordered table: for each domain, in the order of the
/// names, the ports of its folders.
pub fn port_table(doc: &serde_json::Value) -> (r: StrMap<StrMap<u64>>)
    ensures
        is_table_of(r@, json_view(*doc)),
{
    let mut out: StrMap<StrMap<u64>> = StrMap::new();
    let m = match as_object(doc) {
        Some(m) => m,
        None => {
            return out;
        },
    };
    let keys = object_keys(m);
    let n: usize = keys.len();
    let mut i: usize = 0;
    let ghost mem = json_members(*m);
    while i < n
        invariant
            n == keys@.len(),
            i <= n,
            mem == json_members(*m),
            mem == members_of(json_view(*doc)),
            forall|k: Seq<char>| mem.contains_key(k) <==> among(keys@, keys@.len() as int, k),
            sorted(out@),
            keys_are(out@, keys@, i as int),
            forall|d: Seq<char>|
                has_key(out@, d) ==> is_ports_of((#[trigger] lookup(out@, d))->0@, mem[d]),
        decreases n - i,
    {
        let key = keys[i].as_str();
        assert(among(keys@, keys@.len() as int, key@));
        let inner = match object_get(m, key) {
            Some(v) => folder_table(v),
            None => StrMap::new(),
        };
        let ghost before = out@;
        proof {
            lemma_put_sorted(before, key@, inner);
        }
        let (next, _) = out.insert(String::from_str(key), inner);
        out = next;
        proof {
            lemma_keys_grow(before, out@, keys@, i as int);
            assert forall|d: Seq<char>| has_key(out@, d) implies is_ports_of(
                (#[trigger] lookup(out@, d))->0@,
                mem[d],
            ) by {
                if d != key@ {
                    assert(lookup(out@, d) == lookup(before, d));
                }
            }
        }
        i = i + 1;
    }
    out
}

} // verus!
