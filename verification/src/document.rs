//! A character's free-form JSON document, seen at the merge boundary as an
//! ordered sequence of top-level fields: each field a key and the compact
//! JSON text of its value.  Parsing and printing of the surrounding JSON is
//! done by serde_json behind trusted wrappers; the shallow merge itself --
//! replacing one top-level key while leaving siblings untouched -- is
//! verified code.

use vstd::prelude::*;
use crate::strutil::str_eq;

verus! {

/// Whether a character sequence is a well-formed JSON value, as
/// `serde_json::from_str::<Value>` accepts it.
pub uninterp spec fn json_value_ok(s: Seq<char>) -> bool;

/// The compact re-serialization of a JSON value: the text that
/// `serde_json::to_string` prints for the parse of `s`.  Meaningful only
/// when `json_value_ok(s)` holds; a function of `s` alone.
pub uninterp spec fn json_canon(s: Seq<char>) -> Seq<char>;

/// The top-level fields of a JSON object text, in textual order, each value
/// re-serialized compactly; nothing when the text is not a JSON object.
/// A function of the text alone.
pub uninterp spec fn json_obj_of(s: Seq<char>) -> Option<Seq<(Seq<char>, Seq<char>)>>;

/// The field sequence that a vector of owned pairs stands for.
pub open spec fn doc_view(d: Seq<(String, String)>) -> Seq<(Seq<char>, Seq<char>)> {
    d.map_values(|p: (String, String)| (p.0@, p.1@))
}

/// Whether a key occurs in a field sequence.
pub open spec fn doc_key_present(d: Seq<(Seq<char>, Seq<char>)>, k: Seq<char>) -> bool
    decreases d.len(),
{
    if d.len() == 0 {
        false
    } else {
        d[0].0 == k || doc_key_present(d.skip(1), k)
    }
}

/// Whether a field with exactly this key and value occurs in the sequence.
pub open spec fn doc_has(d: Seq<(Seq<char>, Seq<char>)>, k: Seq<char>, v: Seq<char>) -> bool
    decreases d.len(),
{
    if d.len() == 0 {
        false
    } else {
        d[0] == (k, v) || doc_has(d.skip(1), k, v)
    }
}

/// Whether every key occurs at most once.
pub open spec fn doc_keys_unique(d: Seq<(Seq<char>, Seq<char>)>) -> bool
    decreases d.len(),
{
    if d.len() == 0 {
        true
    } else {
        !doc_key_present(d.skip(1), d[0].0) && doc_keys_unique(d.skip(1))
    }
}

/// Whether every value is a JSON value in its own compact form.
pub open spec fn doc_values_canonical(d: Seq<(Seq<char>, Seq<char>)>) -> bool
    decreases d.len(),
{
    if d.len() == 0 {
        true
    } else {
        json_value_ok(d[0].1) && json_canon(d[0].1) == d[0].1 && doc_values_canonical(d.skip(1))
    }
}

/// A well-formed document: unique keys, canonical values.  Every document
/// the store reads or writes satisfies this.
pub open spec fn doc_wf(d: Seq<(Seq<char>, Seq<char>)>) -> bool {
    doc_keys_unique(d) && doc_values_canonical(d)
}

/// The shallow merge: the first field with key `k` replaced by `(k, v)` in
/// place, or `(k, v)` appended when the key is absent.
pub open spec fn spec_set_field(
    d: Seq<(Seq<char>, Seq<char>)>,
    k: Seq<char>,
    v: Seq<char>,
) -> Seq<(Seq<char>, Seq<char>)>
    decreases d.len(),
{
    if d.len() == 0 {
        seq![(k, v)]
    } else if d[0].0 == k {
        seq![(k, v)] + d.skip(1)
    } else {
        seq![d[0]] + spec_set_field(d.skip(1), k, v)
    }
}

/// Relies on `serde_json::from_str::<Value>` and `serde_json::to_string`:
/// the result is the compact re-serialization of `v`, present exactly when
/// `v` parses as JSON.  Re-serialization is idempotent: printing a value
/// and parsing the text back yields the same value.
#[verifier::external_body]
pub(crate) fn normalize_value(v: &str) -> (r: Option<String>)
    ensures
        r is Some <==> json_value_ok(v@),
        r matches Some(s) ==> s@ == json_canon(v@),
        r matches Some(s) ==> json_value_ok(s@) && json_canon(s@) == s@,
{
    match serde_json::from_str::<serde_json::Value>(v) {
        Ok(val) => Some(serde_json::Value::to_string(&val)),
        Err(_) => None,
    }
}

/// Relies on `serde_json::from_str::<Value>` and `serde_json::to_string`:
/// splits a JSON object text into its top-level fields in textual order
/// (serde_json is built with `preserve_order`), each value re-serialized
/// compactly; `None` when the text is not a JSON object.  The fields of a
/// parsed object have unique keys, and re-serialized values are canonical.
#[verifier::external_body]
pub(crate) fn parse_document(s: &str) -> (r: Option<Vec<(String, String)>>)
    ensures
        r matches Some(d) ==> json_obj_of(s@) == Some(doc_view(d@)),
        r is None ==> json_obj_of(s@) is None,
        r matches Some(d) ==> doc_wf(doc_view(d@)),
{
    let value: serde_json::Value = match serde_json::from_str(s) {
        Ok(v) => v,
        Err(_) => return None,
    };
    let obj = match value {
        serde_json::Value::Object(m) => m,
        _ => return None,
    };
    let mut out: Vec<(String, String)> = Vec::new();
    for (k, v) in obj {
        out.push((k, serde_json::Value::to_string(&v)));
    }
    Some(out)
}

/// Relies on `serde_json::Map::insert` and `serde_json::to_string` with
/// `preserve_order`: printing an object built from fields with unique keys
/// and canonical values, in order, yields a text that parses back to
/// exactly those fields.
#[verifier::external_body]
pub(crate) fn serialize_document(d: &Vec<(String, String)>) -> (r: String)
    requires
        doc_wf(doc_view(d@)),
    ensures
        json_obj_of(r@) == Some(doc_view(d@)),
{
    let mut m = serde_json::Map::new();
    for (k, v) in d {
        if let Ok(val) = serde_json::from_str::<serde_json::Value>(v) {
            m.insert(k.clone(), val);
        }
    }
    serde_json::Value::to_string(&serde_json::Value::Object(m))
}

proof fn lemma_set_field_found(
    d: Seq<(Seq<char>, Seq<char>)>,
    k: Seq<char>,
    v: Seq<char>,
    i: int,
)
    requires
        0 <= i < d.len(),
        d[i].0 == k,
        forall|j: int| 0 <= j < i ==> d[j].0 != k,
    ensures
        spec_set_field(d, k, v) =~= d.update(i, (k, v)),
    decreases i,
{
    if i == 0 {
        assert(spec_set_field(d, k, v) =~= d.update(0, (k, v)));
    } else {
        lemma_set_field_found(d.skip(1), k, v, i - 1);
        assert(spec_set_field(d, k, v) =~= d.update(i, (k, v)));
    }
}

proof fn lemma_set_field_absent(d: Seq<(Seq<char>, Seq<char>)>, k: Seq<char>, v: Seq<char>)
    requires
        forall|j: int| 0 <= j < d.len() ==> d[j].0 != k,
    ensures
        spec_set_field(d, k, v) =~= d.push((k, v)),
    decreases d.len(),
{
    if d.len() == 0 {
    } else {
        lemma_set_field_absent(d.skip(1), k, v);
        assert(spec_set_field(d, k, v) =~= d.push((k, v)));
    }
}

/// Replaces (or adds) one top-level field of the document, leaving every
/// other field as it was.
pub fn set_field(doc: &mut Vec<(String, String)>, key: &str, value: &str)
    ensures
        doc_view(final(doc)@) == spec_set_field(doc_view(old(doc)@), key@, value@),
{
    let n = doc.len();
    let mut i: usize = 0;
    while i < n
        invariant
            *doc == *old(doc),
            n == doc@.len(),
            i <= n,
            forall|j: int| 0 <= j < i ==> doc_view(doc@)[j].0 != key@,
        decreases n - i,
    {
        if str_eq(doc[i].0.as_str(), key) {
            let pair = (key.to_owned(), value.to_owned());
            doc.remove(i);
            doc.insert(i, pair);
            proof {
                lemma_set_field_found(doc_view(old(doc)@), key@, value@, i as int);
                assert(doc_view(doc@) =~= doc_view(old(doc)@).update(i as int, (key@, value@)));
            }
            return;
        }
        i = i + 1;
    }
    doc.push((key.to_owned(), value.to_owned()));
    proof {
        lemma_set_field_absent(doc_view(old(doc)@), key@, value@);
        assert(doc_view(doc@) =~= doc_view(old(doc)@).push((key@, value@)));
    }
}

/// The merged document holds the new field.
pub proof fn lemma_set_field_has(d: Seq<(Seq<char>, Seq<char>)>, k: Seq<char>, v: Seq<char>)
    ensures
        doc_has(spec_set_field(d, k, v), k, v),
    decreases d.len(),
{
    if d.len() == 0 {
        assert((seq![(k, v)]).skip(1) =~= Seq::<(Seq<char>, Seq<char>)>::empty());
    } else if d[0].0 == k {
        assert((seq![(k, v)] + d.skip(1))[0] == (k, v));
    } else {
        lemma_set_field_has(d.skip(1), k, v);
        assert((seq![d[0]] + spec_set_field(d.skip(1), k, v)).skip(1) =~= spec_set_field(
            d.skip(1),
            k,
            v,
        ));
    }
}

/// The merge touches no field with another key.
pub proof fn lemma_set_field_other(
    d: Seq<(Seq<char>, Seq<char>)>,
    k: Seq<char>,
    v: Seq<char>,
    k2: Seq<char>,
    v2: Seq<char>,
)
    requires
        k2 != k,
    ensures
        doc_has(spec_set_field(d, k, v), k2, v2) <==> doc_has(d, k2, v2),
    decreases d.len(),
{
    let s = spec_set_field(d, k, v);
    if d.len() == 0 {
        assert(s =~= seq![(k, v)]);
        assert(s.skip(1) =~= Seq::<(Seq<char>, Seq<char>)>::empty());
        assert(!doc_has(s.skip(1), k2, v2));
        assert(s[0] != (k2, v2));
        assert(!doc_has(s, k2, v2));
    } else if d[0].0 == k {
        assert(s =~= seq![(k, v)] + d.skip(1));
        assert(s.skip(1) =~= d.skip(1));
        assert(s[0] != (k2, v2));
        assert(doc_has(s, k2, v2) <==> doc_has(d.skip(1), k2, v2));
        assert(d[0] != (k2, v2));
        assert(doc_has(d, k2, v2) <==> doc_has(d.skip(1), k2, v2));
    } else {
        lemma_set_field_other(d.skip(1), k, v, k2, v2);
        assert(s =~= seq![d[0]] + spec_set_field(d.skip(1), k, v));
        assert(s.skip(1) =~= spec_set_field(d.skip(1), k, v));
        assert(s[0] == d[0]);
        assert(doc_has(s, k2, v2) <==> (d[0] == (k2, v2) || doc_has(
            spec_set_field(d.skip(1), k, v),
            k2,
            v2,
        )));
    }
}

/// Which keys the merged document holds: the old ones and the merged one.
pub proof fn lemma_set_field_keys(
    d: Seq<(Seq<char>, Seq<char>)>,
    k: Seq<char>,
    v: Seq<char>,
    k2: Seq<char>,
)
    ensures
        doc_key_present(spec_set_field(d, k, v), k2) <==> (doc_key_present(d, k2) || k2 == k),
    decreases d.len(),
{
    let s = spec_set_field(d, k, v);
    if d.len() == 0 {
        assert(s =~= seq![(k, v)]);
        assert(s.skip(1) =~= Seq::<(Seq<char>, Seq<char>)>::empty());
        assert(!doc_key_present(s.skip(1), k2));
        assert(doc_key_present(s, k2) <==> s[0].0 == k2);
    } else if d[0].0 == k {
        assert(s =~= seq![(k, v)] + d.skip(1));
        assert(s.skip(1) =~= d.skip(1));
        assert(doc_key_present(s, k2) <==> (k == k2 || doc_key_present(d.skip(1), k2)));
        assert(doc_key_present(d, k2) <==> (k == k2 || doc_key_present(d.skip(1), k2)));
    } else {
        lemma_set_field_keys(d.skip(1), k, v, k2);
        assert(s =~= seq![d[0]] + spec_set_field(d.skip(1), k, v));
        assert(s.skip(1) =~= spec_set_field(d.skip(1), k, v));
        assert(doc_key_present(s, k2) <==> (d[0].0 == k2 || doc_key_present(
            spec_set_field(d.skip(1), k, v),
            k2,
        )));
        assert(doc_key_present(d, k2) <==> (d[0].0 == k2 || doc_key_present(d.skip(1), k2)));
    }
}

/// The merge of a canonical value into a well-formed document is
/// well-formed again.
pub proof fn lemma_set_field_wf(d: Seq<(Seq<char>, Seq<char>)>, k: Seq<char>, v: Seq<char>)
    requires
        doc_wf(d),
        json_value_ok(v),
        json_canon(v) == v,
    ensures
        doc_wf(spec_set_field(d, k, v)),
    decreases d.len(),
{
    let s = spec_set_field(d, k, v);
    if d.len() == 0 {
        assert(s =~= seq![(k, v)]);
        assert(s.skip(1) =~= Seq::<(Seq<char>, Seq<char>)>::empty());
        assert(!doc_key_present(s.skip(1), s[0].0));
        assert(doc_keys_unique(s.skip(1)) && doc_values_canonical(s.skip(1)));
        assert(doc_keys_unique(s));
        assert(doc_values_canonical(s));
    } else if d[0].0 == k {
        assert(s =~= seq![(k, v)] + d.skip(1));
        assert(s.skip(1) =~= d.skip(1));
        assert(!doc_key_present(d.skip(1), k));
        assert(doc_keys_unique(s));
        assert(doc_values_canonical(s));
    } else {
        lemma_set_field_wf(d.skip(1), k, v);
        lemma_set_field_keys(d.skip(1), k, v, d[0].0);
        assert(s =~= seq![d[0]] + spec_set_field(d.skip(1), k, v));
        assert(s.skip(1) =~= spec_set_field(d.skip(1), k, v));
        assert(!doc_key_present(spec_set_field(d.skip(1), k, v), d[0].0));
        assert(doc_keys_unique(s));
        assert(doc_values_canonical(s));
    }
}

/// Merge idempotence on distinct keys: after updating two different keys,
/// in either order of the keys' roles, both fields stand in the document.
pub proof fn lemma_merge_distinct_keys(
    d: Seq<(Seq<char>, Seq<char>)>,
    k1: Seq<char>,
    v1: Seq<char>,
    k2: Seq<char>,
    v2: Seq<char>,
)
    requires
        k1 != k2,
    ensures
        doc_has(spec_set_field(spec_set_field(d, k1, v1), k2, v2), k1, v1),
        doc_has(spec_set_field(spec_set_field(d, k1, v1), k2, v2), k2, v2),
{
    lemma_set_field_has(d, k1, v1);
    lemma_set_field_other(spec_set_field(d, k1, v1), k2, v2, k1, v1);
    lemma_set_field_has(spec_set_field(d, k1, v1), k2, v2);
}

/// Merge overwrite: a second update at the same key wins, exactly as if
/// the first had never happened.
pub proof fn lemma_merge_overwrite(
    d: Seq<(Seq<char>, Seq<char>)>,
    k: Seq<char>,
    v1: Seq<char>,
    v2: Seq<char>,
)
    ensures
        spec_set_field(spec_set_field(d, k, v1), k, v2) == spec_set_field(d, k, v2),
    decreases d.len(),
{
    if d.len() == 0 {
        assert(spec_set_field(spec_set_field(d, k, v1), k, v2) =~= spec_set_field(d, k, v2));
    } else if d[0].0 == k {
        assert((seq![(k, v1)] + d.skip(1)).skip(1) =~= d.skip(1));
        assert(spec_set_field(spec_set_field(d, k, v1), k, v2) =~= spec_set_field(d, k, v2));
    } else {
        lemma_merge_overwrite(d.skip(1), k, v1, v2);
        assert((seq![d[0]] + spec_set_field(d.skip(1), k, v1)).skip(1) =~= spec_set_field(
            d.skip(1),
            k,
            v1,
        ));
        assert(spec_set_field(spec_set_field(d, k, v1), k, v2) =~= spec_set_field(d, k, v2));
    }
}

} // verus!
