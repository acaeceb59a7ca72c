//! The merge-upsert coordinator: create-or-update-by-merge for a
//! character's JSON document.  One call looks the character up, parses (or
//! defaults) its stored document, replaces one top-level field, and writes
//! the result back -- or inserts a new character whose document holds just
//! that field.  The caller's exclusive (`&mut`) access to the store is
//! what makes the read-modify-write sequence atomic with respect to other
//! callers.

use vstd::prelude::*;
use vstd::string::*;
use crate::database::{Database, StoreError, spec_uuid_text};
use crate::document::{
    doc_has, doc_wf, json_canon, json_obj_of, json_value_ok, lemma_merge_distinct_keys,
    lemma_merge_overwrite, lemma_set_field_wf, normalize_value, parse_document,
    serialize_document, set_field, spec_set_field, doc_view,
};

verus! {

/// How a partial update fails.
#[derive(Debug)]
pub enum ApplyError {
    /// The supplied field value is not valid JSON; nothing was written.
    InvalidValue,
    /// The stored document exists but is not a JSON object; nothing was
    /// written, and nothing is overwritten silently.
    CorruptPayload,
    /// The initial lookup failed.
    Query(StoreError),
    /// Writing the merged document back failed.
    Write(StoreError),
    /// Inserting the new character failed.
    Insert(StoreError),
}

/// The document stored under `(name, game)`, as parsed fields: the empty
/// document when the character is absent or has no data; nothing when the
/// stored data is not a JSON object.
pub open spec fn stored_doc(db: Database, name: Seq<char>, game: Seq<char>) -> Option<
    Seq<(Seq<char>, Seq<char>)>,
> {
    if db.characters().contains_key((name, game)) {
        match db.characters()[(name, game)].1 {
            Option::None => Some(Seq::empty()),
            Option::Some(s) => json_obj_of(s),
        }
    } else {
        Some(Seq::empty())
    }
}

/// Everything a successful partial update did: only the one character row
/// changed; its document is the old one (empty on creation) with the one
/// field replaced by the canonical form of the value; the returned uuid is
/// the existing identity, or a freshly generated one -- in the hyphenated
/// identifier form -- distinct from every other in the store.
pub open spec fn apply_ok(
    pre: Database,
    post: Database,
    name: Seq<char>,
    game: Seq<char>,
    key: Seq<char>,
    value: Seq<char>,
    u: Seq<char>,
) -> bool {
    &&& json_value_ok(value)
    &&& stored_doc(pre, name, game) is Some
    &&& post.spec_created() == pre.spec_created()
    &&& post.objects() == pre.objects()
    &&& post.ownerships() == pre.ownerships()
    &&& post.characters().dom() == pre.characters().dom().insert((name, game))
    &&& (forall|k: (Seq<char>, Seq<char>)|
        k != (name, game) && #[trigger] pre.characters().contains_key(k) ==> post.characters()[k]
            == pre.characters()[k])
    &&& post.characters().contains_key((name, game))
    &&& post.characters()[(name, game)].0 == u
    &&& post.characters()[(name, game)].1 matches Some(t) && json_obj_of(t) == Some(
        spec_set_field(stored_doc(pre, name, game).unwrap(), key, json_canon(value)),
    )
    &&& (pre.characters().contains_key((name, game)) ==> u == pre.characters()[(name, game)].0)
    &&& (!pre.characters().contains_key((name, game)) ==> spec_uuid_text(u) && (forall|
        k: (Seq<char>, Seq<char>),
    |
        #[trigger] pre.characters().contains_key(k) ==> pre.characters()[k].0 != u))
}

impl Database {
    /// Sets one top-level field of the character's document to the given
    /// JSON value, creating the character when `(name, game)` is unknown,
    /// and returns the identity of the affected character.  The whole
    /// read-merge-write either completes or changes nothing.
    pub fn apply_partial_update(
        &mut self,
        name: &str,
        game: &str,
        field_key: &str,
        field_value: &str,
    ) -> (r: Result<String, ApplyError>)
        ensures
            r matches Ok(u) ==> apply_ok(
                *old(self),
                *final(self),
                name@,
                game@,
                field_key@,
                field_value@,
                u@,
            ),
            r matches Err(_) ==> final(self).characters() == old(self).characters() && final(self).objects() == old(self).objects() && final(self).ownerships() == old(self).ownerships() && final(self).spec_created() == old(self).spec_created(),
            r matches Err(e) ==> (e is InvalidValue <==> !json_value_ok(field_value@)),
            r matches Err(e) ==> (e is CorruptPayload ==> stored_doc(
                *old(self),
                name@,
                game@,
            ) is None),
            r matches Err(e) ==> !(e matches ApplyError::Insert(StoreError::DuplicateKey)),
            r matches Err(e) ==> ((e matches ApplyError::Write(_) || e matches ApplyError::Insert(
                _,
            )) ==> stored_doc(*old(self), name@, game@) is Some),
    {
        let normalized = match normalize_value(field_value) {
            Some(s) => s,
            None => {
                return Err(ApplyError::InvalidValue);
            },
        };
        let existing = match self.get_character(name, game) {
            Ok(x) => x,
            Err(e) => {
                return Err(ApplyError::Query(e));
            },
        };
        match existing {
            Some(found) => {
                let uuid = found.0;
                let mut doc: Vec<(String, String)> = match found.3 {
                    Some(data) => {
                        match parse_document(data.as_str()) {
                            Some(d) => d,
                            None => {
                                return Err(ApplyError::CorruptPayload);
                            },
                        }
                    },
                    None => Vec::new(),
                };
                proof {
                    assert(doc_view(Seq::<(String, String)>::empty()) =~= Seq::<
                        (Seq<char>, Seq<char>),
                    >::empty());
                    assert(doc_wf(doc_view(doc@)));
                }
                set_field(&mut doc, field_key, normalized.as_str());
                proof {
                    lemma_set_field_wf(
                        stored_doc(*old(self), name@, game@).unwrap(),
                        field_key@,
                        normalized@,
                    );
                }
                let text = serialize_document(&doc);
                match self.update_character(name, game, text.as_str()) {
                    Ok(_) => {
                        proof {
                            assert(final(self).characters().dom() =~= old(self).characters().dom().insert((name@, game@)));
                        }
                        Ok(uuid)
                    },
                    Err(e) => Err(ApplyError::Write(e)),
                }
            },
            None => {
                let mut doc: Vec<(String, String)> = Vec::new();
                proof {
                    assert(doc_view(Seq::<(String, String)>::empty()) =~= Seq::<
                        (Seq<char>, Seq<char>),
                    >::empty());
                    assert(doc_wf(doc_view(doc@)));
                }
                set_field(&mut doc, field_key, normalized.as_str());
                proof {
                    lemma_set_field_wf(Seq::empty(), field_key@, normalized@);
                }
                let text = serialize_document(&doc);
                match self.insert_character(name, game, Some(text.as_str())) {
                    Ok(u) => {
                        proof {
                            assert(final(self).characters().dom() =~= old(self).characters().dom().insert((name@, game@)));
                        }
                        Ok(u)
                    },
                    Err(StoreError::DuplicateKey) => vstd::pervasive::unreached(),
                    Err(e) => Err(ApplyError::Insert(e)),
                }
            },
        }
    }
}

/// Merge idempotence on distinct keys: two partial updates at different
/// keys, applied in sequence, leave a document holding both fields --
/// and since the statement holds for either assignment of the two keys,
/// the outcome does not depend on the order.
pub proof fn lemma_apply_distinct_keys(
    s0: Database,
    s1: Database,
    s2: Database,
    name: Seq<char>,
    game: Seq<char>,
    k1: Seq<char>,
    v1: Seq<char>,
    k2: Seq<char>,
    v2: Seq<char>,
    u1: Seq<char>,
    u2: Seq<char>,
)
    requires
        k1 != k2,
        apply_ok(s0, s1, name, game, k1, v1, u1),
        apply_ok(s1, s2, name, game, k2, v2, u2),
    ensures
        s2.characters().contains_key((name, game)),
        s2.characters()[(name, game)].1 matches Some(t) && json_obj_of(t) matches Some(d)
            && doc_has(d, k1, json_canon(v1)) && doc_has(d, k2, json_canon(v2)),
{
    let d0 = stored_doc(s0, name, game).unwrap();
    lemma_merge_distinct_keys(d0, k1, json_canon(v1), k2, json_canon(v2));
}

/// Merge overwrite: two partial updates at the same key, applied in
/// sequence, leave the document the second alone would have produced --
/// the last write wins.
pub proof fn lemma_apply_overwrite(
    s0: Database,
    s1: Database,
    s2: Database,
    name: Seq<char>,
    game: Seq<char>,
    key: Seq<char>,
    v1: Seq<char>,
    v2: Seq<char>,
    u1: Seq<char>,
    u2: Seq<char>,
)
    requires
        apply_ok(s0, s1, name, game, key, v1, u1),
        apply_ok(s1, s2, name, game, key, v2, u2),
    ensures
        s2.characters().contains_key((name, game)),
        s2.characters()[(name, game)].1 matches Some(t) && json_obj_of(t) == Some(
            spec_set_field(stored_doc(s0, name, game).unwrap(), key, json_canon(v2)),
        ),
{
    let d0 = stored_doc(s0, name, game).unwrap();
    lemma_merge_overwrite(d0, key, json_canon(v1), json_canon(v2));
}

/// Create-on-absence: a partial update on an unknown `(name, game)`
/// creates a character whose document holds exactly the one supplied
/// field, under a fresh identity distinct from every other in the store.
pub proof fn lemma_apply_creates(
    s0: Database,
    s1: Database,
    name: Seq<char>,
    game: Seq<char>,
    key: Seq<char>,
    value: Seq<char>,
    u: Seq<char>,
)
    requires
        !s0.characters().contains_key((name, game)),
        apply_ok(s0, s1, name, game, key, value, u),
    ensures
        s1.characters().contains_key((name, game)),
        s1.characters()[(name, game)].0 == u,
        spec_uuid_text(u),
        forall|k: (Seq<char>, Seq<char>)| #[trigger]
            s0.characters().contains_key(k) ==> s0.characters()[k].0 != u,
        s1.characters()[(name, game)].1 matches Some(t) && json_obj_of(t) == Some(
            seq![(key, json_canon(value))],
        ),
{
    assert(stored_doc(s0, name, game).unwrap() =~= Seq::<(Seq<char>, Seq<char>)>::empty());
    assert(spec_set_field(Seq::empty(), key, json_canon(value)) =~= seq![
        (key, json_canon(value)),
    ]);
}

} // verus!
