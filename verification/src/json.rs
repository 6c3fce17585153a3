//! The game's data files: JSON objects of blocks and of entities, parsed with
//! `serde_json`, and the lists of block states and entity ids that the tables are built
//! from.
use vstd::prelude::*;

verus! {

#[verifier::external_type_specification]
#[verifier::external_body]
pub struct ExJsonValue(serde_json::Value);

/// The top-level keys, in the order `serde_json` keeps them (sorted, as its maps are
/// B-trees), of the JSON text `text`: `None` where `text` is not JSON, `Some(None)` where
/// it is JSON but not an object.
pub uninterp spec fn json_top_keys(text: Seq<char>) -> Option<Option<Seq<Seq<char>>>>;

/// The keys, in order, of `value[member][field]` in the JSON text `text`, where that
/// entry is an object; `None` where it is missing or not an object.
pub uninterp spec fn json_field_keys(text: Seq<char>, member: Seq<char>, field: Seq<char>) -> Option<Seq<Seq<char>>>;

/// The number at `value[member][field]` in the JSON text `text`, as `serde_json`'s
/// `Number::as_i64` gives it (`None` for a fraction or a number beyond `i64`); `None`
/// where that entry is missing or not a number.
pub uninterp spec fn json_field_number(text: Seq<char>, member: Seq<char>, field: Seq<char>) -> Option<Option<i64>>;

/// A JSON text parsed by `serde_json`, with the text it was parsed from.
pub struct ParsedJson {
    value: serde_json::Value,
    source: Ghost<Seq<char>>,
}

impl ParsedJson {
    /// The text this value was parsed from.
    pub closed spec fn source(&self) -> Seq<char> {
        self.source@
    }
}

/// The texts of a list of strings.
pub open spec fn texts(v: Seq<String>) -> Seq<Seq<char>> {
    v.map_values(|s: String| s@)
}

/// Parses `text` with `serde_json::from_str` into a `serde_json::Value`, kept with the
/// text; `None` where `serde_json` reports an error.
#[verifier::external_body]
fn parse_json(text: &str) -> (r: Option<ParsedJson>)
    ensures
        r is Some <==> json_top_keys(text@) is Some,
        r matches Some(p) ==> p.source() == text@,
{
    match serde_json::from_str::<serde_json::Value>(text) {
        Ok(value) => Some(ParsedJson { value, source: Ghost(text@) }),
        Err(_) => None,
    }
}

/// The keys of the parsed value when it is an object (`Value::as_object`, then the keys of
/// its map in order).
#[verifier::external_body]
fn top_keys(p: &ParsedJson) -> (r: Option<Vec<String>>)
    ensures
        match r {
            Some(keys) => json_top_keys(p.source()) == Some(Some(texts(keys@))),
            None => json_top_keys(p.source()) == Some(None::<Seq<Seq<char>>>),
        },
{
    match p.value.as_object() {
        Some(map) => Some(map.keys().cloned().collect()),
        None => None,
    }
}

/// The keys of `value[member][field]` when it is an object, found with `Value::get`
/// twice (which gives `None` on a value that is not an object or lacks the key).
#[verifier::external_body]
fn field_keys(p: &ParsedJson, member: &str, field: &str) -> (r: Option<Vec<String>>)
    ensures
        match r {
            Some(keys) => json_field_keys(p.source(), member@, field@) == Some(texts(keys@)),
            None => json_field_keys(p.source(), member@, field@) is None,
        },
{
    let entry = match p.value.get(member) {
        Some(m) => m.get(field),
        None => None,
    };
    match entry {
        Some(serde_json::Value::Object(map)) => Some(map.keys().cloned().collect()),
        _ => None,
    }
}

/// The number at `value[member][field]` when it is one, found with `Value::get` twice and
/// read with `Number::as_i64`.
#[verifier::external_body]
fn field_number(p: &ParsedJson, member: &str, field: &str) -> (r: Option<Option<i64>>)
    ensures
        r == json_field_number(p.source(), member@, field@),
{
    let entry = match p.value.get(member) {
        Some(m) => m.get(field),
        None => None,
    };
    match entry {
        Some(serde_json::Value::Number(n)) => Some(n.as_i64()),
        _ => None,
    }
}

/// Why a data file gives no list.
#[derive(Debug, Clone, Copy, PartialEq, Eq, Structural)]
pub enum DataFileError {
    /// The text is not JSON.
    NotJson,
    /// An entity's id is a number but not an integer that fits in an `i64`.
    NonIntegerId,
}

/// The blocks of a blocks file whose top-level keys are `keys`, in order: each block
/// whose `states` is an object, with the keys of its states.
pub open spec fn block_lists_of(text: Seq<char>, keys: Seq<Seq<char>>) -> Seq<
    (Seq<char>, Seq<Seq<char>>),
>
    decreases keys.len(),
{
    if keys.len() == 0 {
        Seq::empty()
    } else {
        let rest = block_lists_of(text, keys.drop_last());
        match json_field_keys(text, keys.last(), "states"@) {
            Some(states) => rest.push((keys.last(), states)),
            None => rest,
        }
    }
}

/// The entities of an entities file whose top-level keys are `keys`, in order: each
/// entity whose `id` is a number, with that number; `None` when one such number is not an
/// `i64`.
pub open spec fn entity_ids_of(text: Seq<char>, keys: Seq<Seq<char>>) -> Option<
    Seq<(Seq<char>, i64)>,
>
    decreases keys.len(),
{
    if keys.len() == 0 {
        Some(Seq::empty())
    } else {
        match entity_ids_of(text, keys.drop_last()) {
            None => None,
            Some(rest) => match json_field_number(text, keys.last(), "id"@) {
                Some(Some(id)) => Some(rest.push((keys.last(), id))),
                Some(None) => None,
                None => Some(rest),
            },
        }
    }
}

/// The texts of a list of blocks and their states.
pub open spec fn block_lists_view(v: Seq<(String, Vec<String>)>) -> Seq<(Seq<char>, Seq<Seq<char>>)> {
    v.map_values(|b: (String, Vec<String>)| (b.0@, texts(b.1@)))
}

/// The texts of a list of entities and their ids.
pub open spec fn entity_ids_view(v: Seq<(String, i64)>) -> Seq<(Seq<char>, i64)> {
    v.map_values(|e: (String, i64)| (e.0@, e.1))
}

/// Reads a blocks data file: a JSON object whose members are blocks, each with an object
/// of states keyed by state id. It gives each block whose `states` is an object, with the
/// keys of its states, in the file's key order; `Ok(None)` when the JSON is not an
/// object, and `Err(NotJson)` when the text is not JSON.
pub fn block_lists_from_json(text: &str) -> (r: Result<
    Option<Vec<(String, Vec<String>)>>,
    DataFileError,
>)
    ensures
        match r {
            Err(e) => e == DataFileError::NotJson && json_top_keys(text@) is None,
            Ok(None) => json_top_keys(text@) == Some(None::<Seq<Seq<char>>>),
            Ok(Some(list)) => json_top_keys(text@) matches Some(Some(keys)) && block_lists_view(
                list@,
            ) == block_lists_of(text@, keys),
        },
{
    let p = match parse_json(text) {
        Some(p) => p,
        None => {
            return Err(DataFileError::NotJson);
        },
    };
    let keys = match top_keys(&p) {
        Some(k) => k,
        None => {
            return Ok(None);
        },
    };
    let ghost ks = texts(keys@);
    let mut out: Vec<(String, Vec<String>)> = Vec::new();
    for i in 0..keys.len()
        invariant
            ks == texts(keys@),
            p.source() == text@,
            block_lists_view(out@) == block_lists_of(text@, ks.take(i as int)),
    {
        proof {
            assert(ks.take(i + 1).drop_last() =~= ks.take(i as int));
        }
        match field_keys(&p, keys[i].as_str(), "states") {
            Some(states) => {
                let ghost before = out@;
                out.push((keys[i].clone(), states));
                proof {
                    assert(block_lists_view(out@) =~= block_lists_view(before).push(
                        (ks[i as int], texts(states@)),
                    ));
                }
            },
            None => {},
        }
    }
    proof {
        assert(ks.take(keys@.len() as int) =~= ks);
    }
    Ok(Some(out))
}

/// Reads an entities data file: a JSON object whose members are entity types. It gives
/// each entity whose `id` is a number, with that number, in the file's key order;
/// `Ok(None)` when the JSON is not an object, `Err(NotJson)` when the text is not JSON,
/// and `Err(NonIntegerId)` when an id is a number that is not an `i64`.
pub fn entity_ids_from_json(text: &str) -> (r: Result<Option<Vec<(String, i64)>>, DataFileError>)
    ensures
        match r {
            Err(DataFileError::NotJson) => json_top_keys(text@) is None,
            Err(DataFileError::NonIntegerId) => json_top_keys(text@) matches Some(Some(keys))
                && entity_ids_of(text@, keys) is None,
            Ok(None) => json_top_keys(text@) == Some(None::<Seq<Seq<char>>>),
            Ok(Some(list)) => json_top_keys(text@) matches Some(Some(keys)) && entity_ids_of(
                text@,
                keys,
            ) == Some(entity_ids_view(list@)),
        },
{
    let p = match parse_json(text) {
        Some(p) => p,
        None => {
            return Err(DataFileError::NotJson);
        },
    };
    let keys = match top_keys(&p) {
        Some(k) => k,
        None => {
            return Ok(None);
        },
    };
    let ghost ks = texts(keys@);
    let mut out: Vec<(String, i64)> = Vec::new();
    for i in 0..keys.len()
        invariant
            ks == texts(keys@),
            p.source() == text@,
            json_top_keys(text@) == Some(Some(ks)),
            entity_ids_of(text@, ks.take(i as int)) == Some(entity_ids_view(out@)),
    {
        proof {
            assert(ks.take(i + 1).drop_last() =~= ks.take(i as int));
        }
        match field_number(&p, keys[i].as_str(), "id") {
            Some(Some(id)) => {
                let ghost before = out@;
                out.push((keys[i].clone(), id));
                proof {
                    assert(entity_ids_view(out@) =~= entity_ids_view(before).push((ks[i as int], id)));
                }
            },
            Some(None) => {
                proof {
                    lemma_entity_ids_stop(text@, ks, (i + 1) as nat);
                }
                return Err(DataFileError::NonIntegerId);
            },
            None => {},
        }
    }
    proof {
        assert(ks.take(keys@.len() as int) =~= ks);
    }
    Ok(Some(out))
}

/// Once an entity's id is not an `i64`, the list of the whole file is `None`.
proof fn lemma_entity_ids_stop(text: Seq<char>, keys: Seq<Seq<char>>, k: nat)
    requires
        k <= keys.len(),
        entity_ids_of(text, keys.take(k as int)) is None,
    ensures
        entity_ids_of(text, keys) is None,
    decreases keys.len() - k,
{
    if k < keys.len() {
        assert(keys.take(k as int + 1).drop_last() =~= keys.take(k as int));
        lemma_entity_ids_stop(text, keys, (k + 1) as nat);
    } else {
        assert(keys.take(k as int) =~= keys);
    }
}

} // verus!
