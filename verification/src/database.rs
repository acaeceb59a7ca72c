//! The SQLite-backed record store: three relations (characters, object
//! definitions, character-object ownership) behind one connection.  Every
//! operation is specified against a mathematical model of the relations:
//! the characters relation as a map keyed by `(name, game)` -- so the
//! uniqueness invariant is structural -- the object definitions as a map
//! keyed by id, and the ownership rows as a sequence in id (insertion)
//! order.  The SQL itself runs behind trusted wrappers whose contracts
//! state what each statement does to the model; SQLite's PRIMARY KEY and
//! FOREIGN KEY enforcement (foreign keys are switched on for every
//! connection) is what backs the uniqueness and cascade clauses.

use vstd::prelude::*;
use vstd::string::*;
use crate::strutil::push_char;

verus! {

#[verifier::external_type_specification]
#[verifier::external_body]
pub struct ExConnection(rusqlite::Connection);

/// The rows of the characters relation: `(name, game)` to `(uuid, data)`.
pub uninterp spec fn character_rows(c: rusqlite::Connection) -> Map<
    (Seq<char>, Seq<char>),
    (Seq<char>, Option<Seq<char>>),
>;

/// The rows of the objects relation: id to `(name, type, properties)`.
pub uninterp spec fn object_rows(c: rusqlite::Connection) -> Map<
    int,
    (Seq<char>, Seq<char>, Option<Seq<char>>),
>;

/// The rows of the character_objects relation, in ascending id (that is,
/// insertion) order: `(id, game, character_name, object_id, quantity)`.
pub uninterp spec fn ownership_rows(c: rusqlite::Connection) -> Seq<
    (int, Seq<char>, Seq<char>, int, int),
>;

/// How a storage operation fails.
#[derive(Debug)]
pub enum StoreError {
    /// An insert would violate the `(name, game)` uniqueness invariant.
    DuplicateKey,
    /// An ownership operation references a character or object that does
    /// not exist.
    ForeignKeyViolation,
    /// The connection cannot be opened or used; carries the underlying
    /// report.
    StorageUnavailable(String),
}

/// The user-facing text of a storage failure.
pub open spec fn spec_store_error_message(e: StoreError) -> Seq<char> {
    match e {
        StoreError::DuplicateKey => "a character with this name already exists in this game"@,
        StoreError::ForeignKeyViolation => "the referenced character or object does not exist"@,
        StoreError::StorageUnavailable(s) => s@,
    }
}

impl StoreError {
    /// The user-facing text of this failure.
    pub fn message(&self) -> (r: String)
        ensures
            r@ == spec_store_error_message(*self),
    {
        match self {
            StoreError::DuplicateKey => "a character with this name already exists in this game".to_owned(),
            StoreError::ForeignKeyViolation => "the referenced character or object does not exist".to_owned(),
            StoreError::StorageUnavailable(s) => s.clone(),
        }
    }
}

/// The view of an optional text column or argument.
pub open spec fn opt_view<T: View<V = Seq<char>>>(o: Option<T>) -> Option<Seq<char>> {
    match o {
        Some(s) => Some(s@),
        None => None,
    }
}

/// Whether an ownership row belongs to one character.
pub open spec fn row_of_character(
    row: (int, Seq<char>, Seq<char>, int, int),
    game: Seq<char>,
    name: Seq<char>,
) -> bool {
    row.1 == game && row.2 == name
}

/// Whether an ownership row belongs to one association, identified by
/// game, character and object.
pub open spec fn row_of_association(
    row: (int, Seq<char>, Seq<char>, int, int),
    game: Seq<char>,
    name: Seq<char>,
    object_id: int,
) -> bool {
    row.1 == game && row.2 == name && row.3 == object_id
}

/// The ownership rows that belong to one character, in order.
pub open spec fn owned_rows(
    rows: Seq<(int, Seq<char>, Seq<char>, int, int)>,
    game: Seq<char>,
    name: Seq<char>,
) -> Seq<(int, Seq<char>, Seq<char>, int, int)>
    decreases rows.len(),
{
    if rows.len() == 0 {
        Seq::empty()
    } else {
        let rest = owned_rows(rows.skip(1), game, name);
        if row_of_character(rows[0], game, name) {
            seq![rows[0]] + rest
        } else {
            rest
        }
    }
}

/// The ownership rows left after a character's rows are cascaded away.
pub open spec fn without_character(
    rows: Seq<(int, Seq<char>, Seq<char>, int, int)>,
    game: Seq<char>,
    name: Seq<char>,
) -> Seq<(int, Seq<char>, Seq<char>, int, int)>
    decreases rows.len(),
{
    if rows.len() == 0 {
        Seq::empty()
    } else {
        let rest = without_character(rows.skip(1), game, name);
        if row_of_character(rows[0], game, name) {
            rest
        } else {
            seq![rows[0]] + rest
        }
    }
}

/// The ownership rows left after an object's rows are cascaded away.
pub open spec fn without_object(
    rows: Seq<(int, Seq<char>, Seq<char>, int, int)>,
    object_id: int,
) -> Seq<(int, Seq<char>, Seq<char>, int, int)>
    decreases rows.len(),
{
    if rows.len() == 0 {
        Seq::empty()
    } else {
        let rest = without_object(rows.skip(1), object_id);
        if rows[0].3 == object_id {
            rest
        } else {
            seq![rows[0]] + rest
        }
    }
}

/// The ownership rows of one association, in order.
pub open spec fn association_rows(
    rows: Seq<(int, Seq<char>, Seq<char>, int, int)>,
    game: Seq<char>,
    name: Seq<char>,
    object_id: int,
) -> Seq<(int, Seq<char>, Seq<char>, int, int)>
    decreases rows.len(),
{
    if rows.len() == 0 {
        Seq::empty()
    } else {
        let rest = association_rows(rows.skip(1), game, name, object_id);
        if row_of_association(rows[0], game, name, object_id) {
            seq![rows[0]] + rest
        } else {
            rest
        }
    }
}

/// The ownership rows left after one association's rows are removed.
pub open spec fn without_association(
    rows: Seq<(int, Seq<char>, Seq<char>, int, int)>,
    game: Seq<char>,
    name: Seq<char>,
    object_id: int,
) -> Seq<(int, Seq<char>, Seq<char>, int, int)>
    decreases rows.len(),
{
    if rows.len() == 0 {
        Seq::empty()
    } else {
        let rest = without_association(rows.skip(1), game, name, object_id);
        if row_of_association(rows[0], game, name, object_id) {
            rest
        } else {
            seq![rows[0]] + rest
        }
    }
}

/// The ownership rows with the quantity of one association replaced.
pub open spec fn with_quantity(
    rows: Seq<(int, Seq<char>, Seq<char>, int, int)>,
    game: Seq<char>,
    name: Seq<char>,
    object_id: int,
    quantity: int,
) -> Seq<(int, Seq<char>, Seq<char>, int, int)> {
    rows.map_values(
        |row: (int, Seq<char>, Seq<char>, int, int)|
            (
                if row.1 == game && row.2 == name && row.3 == object_id {
                    (row.0, row.1, row.2, row.3, quantity)
                } else {
                    row
                }
            ),
    )
}

/// A handle on the store.  One value owns the one connection; exclusive
/// (`&mut`) access to it is what serializes writers.  The three relation
/// models are functions of this one connection: the contracts describe the
/// store as seen through a single live handle, which is the ownership
/// model here -- one trusted local process, one guarded connection.  A
/// second handle opened on the same file path is outside the model: its
/// writes are not visible through this one's contracts.
pub struct Database {
    conn: rusqlite::Connection,
    created: bool,
}

/// Whether one position of a generated identifier's text holds what the
/// 36-character hyphenated lowercase form puts there: a hyphen at the four
/// separator positions, a lowercase hex digit everywhere else.
pub open spec fn spec_uuid_char(s: Seq<char>, i: int) -> bool {
    if i == 8 || i == 13 || i == 18 || i == 23 {
        s[i] == '-'
    } else {
        let u = s[i] as u32;
        (0x30 <= u && u <= 0x39) || (0x61 <= u && u <= 0x66)
    }
}

/// The textual shape of a freshly generated identifier: 36 characters in
/// the hyphenated lowercase form.
pub open spec fn spec_uuid_text(s: Seq<char>) -> bool {
    s.len() == 36 && (forall|i: int| 0 <= i < 36 ==> #[trigger] spec_uuid_char(s, i))
}

/// Everything the character-insert contract states, as one relation
/// between the store before and after the call: only the characters
/// relation may change; a failed insert writes nothing, and a
/// `DuplicateKey` rejection is given only for a `(name, game)` key that is
/// present; a returned uuid belongs to a key that was absent, is new to
/// the relation, and its row carries exactly the given data.
pub open spec fn insert_character_post(
    pre: Database,
    post: Database,
    name: Seq<char>,
    game: Seq<char>,
    data: Option<Seq<char>>,
    r: Result<String, StoreError>,
) -> bool {
    &&& post.spec_created() == pre.spec_created()
    &&& post.objects() == pre.objects()
    &&& post.ownerships() == pre.ownerships()
    &&& (r matches Err(_) ==> post.characters() == pre.characters())
    &&& (r matches Err(e) ==> (e is DuplicateKey ==> pre.characters().contains_key(
        (name, game),
    )))
    &&& (r matches Ok(u) ==> !pre.characters().contains_key((name, game)) && post.characters()
        == pre.characters().insert((name, game), (u@, data)) && spec_uuid_text(u@) && (forall|
        k: (Seq<char>, Seq<char>),
    |
        #[trigger] pre.characters().contains_key(k) ==> pre.characters()[k].0 != u@))
}

/// Everything the character-delete contract states: the row keyed
/// `(name, game)` goes, its ownership rows cascade away, the object
/// definitions stay, and the count reports whether the key was present.
pub open spec fn delete_character_post(
    pre: Database,
    post: Database,
    name: Seq<char>,
    game: Seq<char>,
    r: Result<usize, StoreError>,
) -> bool {
    &&& post.spec_created() == pre.spec_created()
    &&& post.objects() == pre.objects()
    &&& (r matches Err(_) ==> post.characters() == pre.characters() && post.ownerships()
        == pre.ownerships())
    &&& (r matches Ok(n) ==> post.characters() == pre.characters().remove((name, game))
        && post.ownerships() == without_character(pre.ownerships(), game, name) && n == (
    if pre.characters().contains_key((name, game)) {
        1int
    } else {
        0int
    }))
}

/// Relies on `rusqlite::Connection::open` and `Connection::execute`
/// (`PRAGMA foreign_keys = ON`), and on `std::path::Path::exists` to
/// distinguish creating from opening: when no store file existed, `open`
/// creates an empty one, so all three relations are empty.
#[verifier::external_body]
fn open_connection(db_path: &str) -> (r: Result<(rusqlite::Connection, bool), StoreError>)
    ensures
        r matches Ok((c, fresh)) ==> (fresh ==> character_rows(c) == Map::<
            (Seq<char>, Seq<char>),
            (Seq<char>, Option<Seq<char>>),
        >::empty() && object_rows(c) == Map::<
            int,
            (Seq<char>, Seq<char>, Option<Seq<char>>),
        >::empty() && ownership_rows(c) == Seq::<(int, Seq<char>, Seq<char>, int, int)>::empty()),
{
    let existed = std::path::Path::new(db_path).exists();
    let conn = match rusqlite::Connection::open(db_path) {
        Ok(c) => c,
        Err(e) => return Err(StoreError::StorageUnavailable(e.to_string())),
    };
    if let Err(e) = conn.execute("PRAGMA foreign_keys = ON", []) {
        return Err(StoreError::StorageUnavailable(e.to_string()));
    }
    Ok((conn, !existed))
}

/// Relies on `rusqlite::Connection::execute` running `CREATE TABLE`:
/// materializes the three relations with their PRIMARY KEY, UNIQUE and
/// ON DELETE CASCADE constraints, changing no rows.
#[verifier::external_body]
fn create_tables(conn: &mut rusqlite::Connection) -> (r: Result<(), StoreError>)
    ensures
        character_rows(*final(conn)) == character_rows(*old(conn)),
        object_rows(*final(conn)) == object_rows(*old(conn)),
        ownership_rows(*final(conn)) == ownership_rows(*old(conn)),
{
    let chars = "CREATE TABLE characters (uuid TEXT NOT NULL UNIQUE, name TEXT NOT NULL, game TEXT NOT NULL, data TEXT, PRIMARY KEY (name, game))";
    let objects = "CREATE TABLE objects (id INTEGER PRIMARY KEY AUTOINCREMENT, name TEXT NOT NULL, type TEXT NOT NULL, properties TEXT)";
    let owns = "CREATE TABLE character_objects (id INTEGER PRIMARY KEY AUTOINCREMENT, game TEXT NOT NULL, character_name TEXT NOT NULL, object_id INTEGER NOT NULL, quantity INTEGER DEFAULT 1, FOREIGN KEY (object_id) REFERENCES objects(id) ON DELETE CASCADE, FOREIGN KEY (character_name, game) REFERENCES characters(name, game) ON DELETE CASCADE)";
    for sql in [chars, objects, owns] {
        if let Err(e) = conn.execute(sql, []) {
            return Err(StoreError::StorageUnavailable(e.to_string()));
        }
    }
    Ok(())
}

/// The character a path builder replaces spaces with.
pub open spec fn sanitize_char(c: char) -> char {
    if c == ' ' {
        '_'
    } else {
        c
    }
}

/// Whether the sequence already ends in the store-file suffix.
pub open spec fn ends_with_db(s: Seq<char>) -> bool {
    s.len() >= 3 && s[s.len() - 3] == '.' && s[s.len() - 2] == 'd' && s[s.len() - 1] == 'b'
}

/// The store path built from two components: their concatenation with
/// spaces replaced by underscores, given the store-file suffix when it
/// does not already carry it.
pub open spec fn spec_store_path(w1: Seq<char>, w2: Seq<char>) -> Seq<char> {
    let c = (w1 + w2).map_values(|ch: char| sanitize_char(ch));
    if ends_with_db(c) {
        c
    } else {
        c + seq!['.', 'd', 'b']
    }
}

fn append_sanitized(out: &mut String, w: &str)
    ensures
        final(out)@ == old(out)@ + w@.map_values(|ch: char| sanitize_char(ch)),
{
    let len = w.unicode_len();
    let mut i: usize = 0;
    while i < len
        invariant
            len == w@.len(),
            i <= len,
            out@ =~= old(out)@ + w@.take(i as int).map_values(|ch: char| sanitize_char(ch)),
        decreases len - i,
    {
        let c = w.get_char(i);
        if c == ' ' {
            push_char(out, '_');
        } else {
            push_char(out, c);
        }
        proof {
            assert(out@ =~= old(out)@ + w@.take(i + 1).map_values(
                |ch: char| sanitize_char(ch),
            ));
        }
        i = i + 1;
    }
    proof {
        assert(w@.take(len as int) =~= w@);
    }
}

impl Database {
    /// The characters relation of this store: `(name, game)` to
    /// `(uuid, data)`.
    pub closed spec fn characters(self) -> Map<
        (Seq<char>, Seq<char>),
        (Seq<char>, Option<Seq<char>>),
    > {
        character_rows(self.conn)
    }

    /// The object definitions of this store: id to
    /// `(name, type, properties)`.
    pub closed spec fn objects(self) -> Map<int, (Seq<char>, Seq<char>, Option<Seq<char>>)> {
        object_rows(self.conn)
    }

    /// The ownership rows of this store, in insertion order:
    /// `(id, game, character_name, object_id, quantity)`.
    pub closed spec fn ownerships(self) -> Seq<(int, Seq<char>, Seq<char>, int, int)> {
        ownership_rows(self.conn)
    }

    /// Whether this handle created the store rather than opening an
    /// existing one.
    pub closed spec fn spec_created(self) -> bool {
        self.created
    }

    /// Whether this handle created the store rather than opening an
    /// existing one (observability only).
    pub fn was_created(&self) -> (r: bool)
        ensures
            r == self.spec_created(),
    {
        self.created
    }

    /// Creates or opens a store at the path.  On a path with no store the
    /// three relations are materialized empty; an existing store is opened
    /// as it is, never re-created.
    pub fn new(db_path: &str) -> (r: Result<Database, StoreError>)
        ensures
            r matches Ok(db) ==> (db.spec_created() ==> db.characters() == Map::<
                (Seq<char>, Seq<char>),
                (Seq<char>, Option<Seq<char>>),
            >::empty() && db.objects() == Map::<
                int,
                (Seq<char>, Seq<char>, Option<Seq<char>>),
            >::empty() && db.ownerships() == Seq::<(int, Seq<char>, Seq<char>, int, int)>::empty()),
    {
        let (mut conn, fresh) = match open_connection(db_path) {
            Ok(p) => p,
            Err(e) => return Err(e),
        };
        if fresh {
            match create_tables(&mut conn) {
                Ok(()) => {},
                Err(e) => return Err(e),
            }
        }
        Ok(Database { conn, created: fresh })
    }

    /// Creates or opens a character-specific store: the path is built from
    /// the base path and the name by `name_combiner`.
    pub fn new_with_name(db_path: &str, name: &str) -> (r: Result<Database, StoreError>)
        ensures
            r matches Ok(db) ==> (db.spec_created() ==> db.characters() == Map::<
                (Seq<char>, Seq<char>),
                (Seq<char>, Option<Seq<char>>),
            >::empty() && db.objects() == Map::<
                int,
                (Seq<char>, Seq<char>, Option<Seq<char>>),
            >::empty() && db.ownerships() == Seq::<(int, Seq<char>, Seq<char>, int, int)>::empty()),
    {
        let full_path = Database::name_combiner(db_path, name);
        Database::new(full_path.as_str())
    }

    /// Builds a store-file path from two components: concatenates them,
    /// replaces spaces with underscores, and appends `.db` unless the
    /// result already ends in it.
    pub fn name_combiner(word1: &str, word2: &str) -> (r: String)
        ensures
            r@ == spec_store_path(word1@, word2@),
    {
        let mut combined = String::new();
        append_sanitized(&mut combined, word1);
        append_sanitized(&mut combined, word2);
        proof {
            assert(combined@ =~= (word1@ + word2@).map_values(|ch: char| sanitize_char(ch)));
        }
        let len = combined.as_str().unicode_len();
        let has_suffix = len >= 3 && combined.as_str().get_char(len - 3) == '.'
            && combined.as_str().get_char(len - 2) == 'd' && combined.as_str().get_char(len - 1)
            == 'b';
        if has_suffix {
            combined
        } else {
            combined.append(".db");
            proof {
                reveal_strlit(".db");
                assert(combined@ =~= spec_store_path(word1@, word2@));
            }
            combined
        }
    }
}

impl Database {
    /// Relies on `uuid::Uuid::new_v4` and `rusqlite::Connection::execute`
    /// (INSERT): adds a row keyed `(name, game)` with a freshly generated
    /// uuid, whose text is `Uuid`'s display form -- 36 characters,
    /// hyphenated, lowercase hex.  The relation's PRIMARY KEY rejects a
    /// present key (SQLITE_CONSTRAINT_PRIMARYKEY, mapped to
    /// `DuplicateKey`), and the uuid column's UNIQUE constraint rejects a
    /// uuid already in use, so a returned uuid is new to the relation.  A
    /// failed INSERT changes nothing.
    #[verifier::external_body]
    pub fn insert_character(&mut self, name: &str, game: &str, data: Option<&str>) -> (r: Result<
        String,
        StoreError,
    >)
        ensures
            insert_character_post(*old(self), *final(self), name@, game@, opt_view(data), r),
    {
        let uuid = uuid::Uuid::new_v4().to_string();
        let sql = "INSERT INTO characters (uuid, name, game, data) VALUES (?1, ?2, ?3, ?4)";
        match self.conn.execute(sql, (&uuid, name, game, data)) {
            Ok(_) => Ok(uuid),
            Err(e) => {
                if let Some(fe) = e.sqlite_error() {
                    if fe.extended_code == rusqlite::ffi::SQLITE_CONSTRAINT_PRIMARYKEY {
                        return Err(StoreError::DuplicateKey);
                    }
                }
                Err(StoreError::StorageUnavailable(e.to_string()))
            },
        }
    }

    /// Relies on `rusqlite::Connection::query_row` (SELECT): returns the
    /// row keyed `(name, game)` as `(uuid, name, game, data)`, or nothing
    /// when the key is absent.
    #[verifier::external_body]
    pub fn get_character(&self, name: &str, game: &str) -> (r: Result<
        Option<(String, String, String, Option<String>)>,
        StoreError,
    >)
        ensures
            r matches Ok(Some(t)) ==> self.characters().contains_key((name@, game@)) && t.0@
                == self.characters()[(name@, game@)].0 && t.1@ == name@ && t.2@ == game@
                && opt_view(t.3) == self.characters()[(name@, game@)].1,
            r matches Ok(None) ==> !self.characters().contains_key((name@, game@)),
    {
        let sql = "SELECT uuid, name, game, data FROM characters WHERE name = ?1 AND game = ?2";
        let res = self.conn.query_row(
            sql,
            (name, game),
            |row| Ok((row.get(0)?, row.get(1)?, row.get(2)?, row.get(3)?)),
        );
        match res {
            Ok(t) => Ok(Some(t)),
            Err(rusqlite::Error::QueryReturnedNoRows) => Ok(None),
            Err(e) => Err(StoreError::StorageUnavailable(e.to_string())),
        }
    }

    /// Relies on `rusqlite::Connection::execute` (UPDATE): replaces the
    /// data document of the row keyed `(name, game)`, touching nothing
    /// else; affects one row when the key is present, none when absent.
    /// A failed UPDATE changes nothing.
    #[verifier::external_body]
    pub fn update_character(&mut self, name: &str, game: &str, data: &str) -> (r: Result<
        usize,
        StoreError,
    >)
        ensures
            final(self).spec_created() == old(self).spec_created(),
            final(self).objects() == old(self).objects(),
            final(self).ownerships() == old(self).ownerships(),
            r matches Err(_) ==> final(self).characters() == old(self).characters(),
            r matches Ok(n) ==> (old(self).characters().contains_key((name@, game@)) ==> n == 1
                && final(self).characters() == old(self).characters().insert(
                (name@, game@),
                (old(self).characters()[(name@, game@)].0, Some(data@)),
            )),
            r matches Ok(n) ==> (!old(self).characters().contains_key((name@, game@)) ==> n == 0
                && final(self).characters() == old(self).characters()),
    {
        let sql = "UPDATE characters SET data = ?1 WHERE name = ?2 AND game = ?3";
        match self.conn.execute(sql, (data, name, game)) {
            Ok(n) => Ok(n),
            Err(e) => Err(StoreError::StorageUnavailable(e.to_string())),
        }
    }

    /// Relies on `rusqlite::Connection::execute` (DELETE) and the schema's
    /// ON DELETE CASCADE: removes the row keyed `(name, game)` and every
    /// ownership row of that character; affects one row when the key was
    /// present.  A failed DELETE changes nothing.
    #[verifier::external_body]
    pub fn delete_character(&mut self, name: &str, game: &str) -> (r: Result<usize, StoreError>)
        ensures
            delete_character_post(*old(self), *final(self), name@, game@, r),
    {
        let sql = "DELETE FROM characters WHERE name = ?1 AND game = ?2";
        match self.conn.execute(sql, (name, game)) {
            Ok(n) => Ok(n),
            Err(e) => Err(StoreError::StorageUnavailable(e.to_string())),
        }
    }

    /// Relies on `rusqlite::Connection::execute` (INSERT) and
    /// `Connection::last_insert_rowid`: adds an object definition under a
    /// store-assigned id that AUTOINCREMENT makes larger than every id
    /// ever used.  A failed INSERT changes nothing.
    #[verifier::external_body]
    pub fn insert_object(&mut self, name: &str, obj_type: &str, properties: Option<&str>) -> (r:
        Result<i64, StoreError>)
        ensures
            final(self).spec_created() == old(self).spec_created(),
            final(self).characters() == old(self).characters(),
            final(self).ownerships() == old(self).ownerships(),
            r matches Err(_) ==> final(self).objects() == old(self).objects(),
            r matches Ok(id) ==> !old(self).objects().contains_key(id as int) && id >= 1 && final(self).objects() == old(self).objects().insert(
                id as int,
                (name@, obj_type@, opt_view(properties)),
            ) && (forall|k: int|
                #[trigger] old(self).objects().contains_key(k) ==> k < id as int),
    {
        let sql = "INSERT INTO objects (name, type, properties) VALUES (?1, ?2, ?3)";
        match self.conn.execute(sql, (name, obj_type, properties)) {
            Ok(_) => Ok(self.conn.last_insert_rowid()),
            Err(e) => Err(StoreError::StorageUnavailable(e.to_string())),
        }
    }

    /// Relies on `rusqlite::Connection::query_row` (SELECT): returns the
    /// object definition under the id, or nothing when the id is absent.
    #[verifier::external_body]
    pub fn get_object(&self, object_id: i64) -> (r: Result<
        Option<(i64, String, String, Option<String>)>,
        StoreError,
    >)
        ensures
            r matches Ok(Some(t)) ==> self.objects().contains_key(object_id as int) && t.0
                == object_id && t.1@ == self.objects()[object_id as int].0 && t.2@
                == self.objects()[object_id as int].1 && opt_view(t.3) == self.objects()[
                object_id as int].2,
            r matches Ok(None) ==> !self.objects().contains_key(object_id as int),
    {
        let sql = "SELECT id, name, type, properties FROM objects WHERE id = ?1";
        let res = self.conn.query_row(
            sql,
            [object_id],
            |row| Ok((row.get(0)?, row.get(1)?, row.get(2)?, row.get(3)?)),
        );
        match res {
            Ok(t) => Ok(Some(t)),
            Err(rusqlite::Error::QueryReturnedNoRows) => Ok(None),
            Err(e) => Err(StoreError::StorageUnavailable(e.to_string())),
        }
    }

    /// Relies on `rusqlite::Connection::execute` (UPDATE): replaces the
    /// properties of the object under the id, touching nothing else.  A
    /// failed UPDATE changes nothing.
    #[verifier::external_body]
    pub fn update_object(&mut self, object_id: i64, properties: &str) -> (r: Result<
        usize,
        StoreError,
    >)
        ensures
            final(self).spec_created() == old(self).spec_created(),
            final(self).characters() == old(self).characters(),
            final(self).ownerships() == old(self).ownerships(),
            r matches Err(_) ==> final(self).objects() == old(self).objects(),
            r matches Ok(n) ==> (old(self).objects().contains_key(object_id as int) ==> n == 1
                && final(self).objects() == old(self).objects().insert(
                object_id as int,
                (
                    old(self).objects()[object_id as int].0,
                    old(self).objects()[object_id as int].1,
                    Some(properties@),
                ),
            )),
            r matches Ok(n) ==> (!old(self).objects().contains_key(object_id as int) ==> n == 0
                && final(self).objects() == old(self).objects()),
    {
        let sql = "UPDATE objects SET properties = ?1 WHERE id = ?2";
        match self.conn.execute(sql, (properties, object_id)) {
            Ok(n) => Ok(n),
            Err(e) => Err(StoreError::StorageUnavailable(e.to_string())),
        }
    }

    /// Relies on `rusqlite::Connection::execute` (DELETE) and the schema's
    /// ON DELETE CASCADE: removes the object definition and every
    /// ownership row that references it.  A failed DELETE changes nothing.
    #[verifier::external_body]
    pub fn delete_object(&mut self, object_id: i64) -> (r: Result<usize, StoreError>)
        ensures
            final(self).spec_created() == old(self).spec_created(),
            final(self).characters() == old(self).characters(),
            r matches Err(_) ==> final(self).objects() == old(self).objects() && final(self).ownerships() == old(self).ownerships(),
            r matches Ok(n) ==> final(self).objects() == old(self).objects().remove(object_id as int)
                && final(self).ownerships() == without_object(old(self).ownerships(), object_id as int)
                && n == (if old(self).objects().contains_key(object_id as int) {
                1int
            } else {
                0int
            }),
    {
        let sql = "DELETE FROM objects WHERE id = ?1";
        match self.conn.execute(sql, [object_id]) {
            Ok(n) => Ok(n),
            Err(e) => Err(StoreError::StorageUnavailable(e.to_string())),
        }
    }

    /// Relies on `rusqlite::Connection::execute` (INSERT) under the
    /// enforced FOREIGN KEY constraints
    /// (SQLITE_CONSTRAINT_FOREIGNKEY, mapped to `ForeignKeyViolation`):
    /// appends an ownership row when both the character and the object
    /// exist, under an AUTOINCREMENT id larger than every id in use.  A
    /// failed INSERT changes nothing.
    #[verifier::external_body]
    pub fn add_object_to_character(
        &mut self,
        game: &str,
        character_name: &str,
        object_id: i64,
        quantity: i32,
    ) -> (r: Result<i64, StoreError>)
        ensures
            final(self).spec_created() == old(self).spec_created(),
            final(self).characters() == old(self).characters(),
            final(self).objects() == old(self).objects(),
            r matches Err(_) ==> final(self).ownerships() == old(self).ownerships(),
            r matches Err(e) ==> (e is ForeignKeyViolation ==> !(old(self).characters().contains_key((character_name@, game@)) && old(self).objects().contains_key(object_id as int))),
            r matches Ok(id) ==> old(self).characters().contains_key((character_name@, game@))
                && old(self).objects().contains_key(object_id as int) && id >= 1 && final(self).ownerships() == old(self).ownerships().push(
                (id as int, game@, character_name@, object_id as int, quantity as int),
            ) && (forall|i: int|
                0 <= i < old(self).ownerships().len() ==> #[trigger] old(self).ownerships()[i].0
                    < id as int),
    {
        let sql =
            "INSERT INTO character_objects (game, character_name, object_id, quantity) VALUES (?1, ?2, ?3, ?4)";
        match self.conn.execute(sql, (game, character_name, object_id, quantity)) {
            Ok(_) => Ok(self.conn.last_insert_rowid()),
            Err(e) => {
                if let Some(fe) = e.sqlite_error() {
                    if fe.extended_code == rusqlite::ffi::SQLITE_CONSTRAINT_FOREIGNKEY {
                        return Err(StoreError::ForeignKeyViolation);
                    }
                }
                Err(StoreError::StorageUnavailable(e.to_string()))
            },
        }
    }

    /// Relies on `rusqlite::Connection::execute` (DELETE): removes every
    /// ownership row of the association, reporting how many went.  A
    /// failed DELETE changes nothing.
    #[verifier::external_body]
    pub fn remove_object_from_character(
        &mut self,
        game: &str,
        character_name: &str,
        object_id: i64,
    ) -> (r: Result<usize, StoreError>)
        ensures
            final(self).spec_created() == old(self).spec_created(),
            final(self).characters() == old(self).characters(),
            final(self).objects() == old(self).objects(),
            r matches Err(_) ==> final(self).ownerships() == old(self).ownerships(),
            r matches Ok(n) ==> final(self).ownerships() == without_association(
                old(self).ownerships(),
                game@,
                character_name@,
                object_id as int,
            ) && n == association_rows(
                old(self).ownerships(),
                game@,
                character_name@,
                object_id as int,
            ).len(),
    {
        let sql =
            "DELETE FROM character_objects WHERE game = ?1 AND character_name = ?2 AND object_id = ?3";
        match self.conn.execute(sql, (game, character_name, object_id)) {
            Ok(n) => Ok(n),
            Err(e) => Err(StoreError::StorageUnavailable(e.to_string())),
        }
    }

    /// Relies on `rusqlite::Connection::execute` (UPDATE): sets the
    /// quantity on every ownership row of the association, reporting how
    /// many were touched.  A failed UPDATE changes nothing.
    #[verifier::external_body]
    pub fn update_object_quantity(
        &mut self,
        game: &str,
        character_name: &str,
        object_id: i64,
        quantity: i32,
    ) -> (r: Result<usize, StoreError>)
        ensures
            final(self).spec_created() == old(self).spec_created(),
            final(self).characters() == old(self).characters(),
            final(self).objects() == old(self).objects(),
            r matches Err(_) ==> final(self).ownerships() == old(self).ownerships(),
            r matches Ok(n) ==> final(self).ownerships() == with_quantity(
                old(self).ownerships(),
                game@,
                character_name@,
                object_id as int,
                quantity as int,
            ) && n == association_rows(
                old(self).ownerships(),
                game@,
                character_name@,
                object_id as int,
            ).len(),
    {
        let sql =
            "UPDATE character_objects SET quantity = ?1 WHERE game = ?2 AND character_name = ?3 AND object_id = ?4";
        match self.conn.execute(sql, (quantity, game, character_name, object_id)) {
            Ok(n) => Ok(n),
            Err(e) => Err(StoreError::StorageUnavailable(e.to_string())),
        }
    }

    /// Relies on `rusqlite::Statement::query_map` over a SELECT joining
    /// ownership rows with object definitions, ordered by ownership id:
    /// returns, for each ownership row of the character in insertion
    /// order, the object's id, name, type, the owned quantity and the
    /// object's properties.  The row count matches the character's
    /// ownership rows by the referential integrity that the schema's
    /// enforced foreign keys maintain: every ownership row references an
    /// existing object.
    #[verifier::external_body]
    pub fn get_character_objects(&self, game: &str, character_name: &str) -> (r: Result<
        Vec<(i64, String, String, i32, Option<String>)>,
        StoreError,
    >)
        ensures
            r matches Ok(v) ==> v@.len() == owned_rows(
                self.ownerships(),
                game@,
                character_name@,
            ).len() && (forall|i: int|
                0 <= i < v@.len() ==> {
                    let row = #[trigger] owned_rows(self.ownerships(), game@, character_name@)[i];
                    v@[i].0 as int == row.3 && v@[i].3 as int == row.4 && (
                    self.objects().contains_key(row.3) ==> v@[i].1@ == self.objects()[row.3].0
                        && v@[i].2@ == self.objects()[row.3].1 && opt_view(v@[i].4)
                        == self.objects()[row.3].2)
                }),
    {
        let sql =
            "SELECT o.id, o.name, o.type, co.quantity, o.properties FROM character_objects co JOIN objects o ON co.object_id = o.id WHERE co.game = ?1 AND co.character_name = ?2 ORDER BY co.id";
        let res = self.conn.prepare(sql).and_then(|mut stmt| {
            stmt.query_map(
                (game, character_name),
                |row| Ok((row.get(0)?, row.get(1)?, row.get(2)?, row.get(3)?, row.get(4)?)),
            )?.collect::<rusqlite::Result<Vec<_>>>()
        });
        res.map_err(|e| StoreError::StorageUnavailable(e.to_string()))
    }
}

/// Uniqueness: the pair `(name, game)` identifies at most one character --
/// structurally, since the characters relation is a map keyed by it.
/// While a pair is present, an insert of the same pair can never succeed
/// and leaves every relation unchanged; and a `DuplicateKey` rejection is
/// reported only for a pair that is in fact present.
pub proof fn lemma_insert_duplicate_rejected(
    pre: Database,
    post: Database,
    name: Seq<char>,
    game: Seq<char>,
    data: Option<Seq<char>>,
    r: Result<String, StoreError>,
)
    requires
        pre.characters().contains_key((name, game)),
        insert_character_post(pre, post, name, game, data, r),
    ensures
        !(r is Ok),
        post.characters() == pre.characters(),
        post.objects() == pre.objects(),
        post.ownerships() == pre.ownerships(),
{
}

proof fn lemma_owned_after_without(
    rows: Seq<(int, Seq<char>, Seq<char>, int, int)>,
    game: Seq<char>,
    name: Seq<char>,
)
    ensures
        owned_rows(without_character(rows, game, name), game, name) =~= Seq::<
            (int, Seq<char>, Seq<char>, int, int),
        >::empty(),
    decreases rows.len(),
{
    if rows.len() == 0 {
    } else {
        lemma_owned_after_without(rows.skip(1), game, name);
        if !row_of_character(rows[0], game, name) {
            let rest = without_character(rows.skip(1), game, name);
            assert((seq![rows[0]] + rest).skip(1) =~= rest);
        }
    }
}

/// Cascade delete: a successful character delete removes every ownership
/// row of that character, so a subsequent listing for it is the empty
/// sequence.
pub proof fn lemma_cascade_delete(
    pre: Database,
    post: Database,
    name: Seq<char>,
    game: Seq<char>,
    r: Result<usize, StoreError>,
)
    requires
        delete_character_post(pre, post, name, game, r),
        r is Ok,
    ensures
        !post.characters().contains_key((name, game)),
        owned_rows(post.ownerships(), game, name) == Seq::<
            (int, Seq<char>, Seq<char>, int, int),
        >::empty(),
{
    lemma_owned_after_without(pre.ownerships(), game, name);
}

} // verus!
