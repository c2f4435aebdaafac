//! The durable index: manifest entries and filename-to-uri mappings, kept
//! in an embedded relational database.
//!
//! The database is modelled by two maps: the manifest table, keyed by
//! filename, and the src_uri table, keyed by uri with the owning filename
//! as value.  Each operation's contract says how it moves those maps.
//! Foreign-key enforcement ties a uri row to its manifest row, so deleting
//! a manifest row cascades to its uris.

use vstd::prelude::*;

use crate::config::Config;
use crate::manifest_walker::ManifestEntry;
use crate::manifest_walker::opt_view;
use crate::strutil::concat_str;

verus! {

#[verifier::external_type_specification]
#[verifier::external_body]
pub struct ExConnection(rusqlite::Connection);

/// One row of the manifest table: origin, size, and the optional
/// checksums, keyed by filename.
pub type ManifestRow = (Seq<char>, u32, Option<Seq<char>>, Option<Seq<char>>);

/// The index over manifest entries and source uris.
pub struct RepoDB {
    /// database connection with foreign-key enforcement enabled and the
    /// two tables created
    conn: rusqlite::Connection,
}

/// The rows of the manifest table of an index, keyed by filename.
pub uninterp spec fn manifest_rows(db: RepoDB) -> Map<Seq<char>, ManifestRow>;

/// The rows of the src_uri table of an index: each uri with the filename
/// it belongs to.
pub uninterp spec fn src_uri_rows(db: RepoDB) -> Map<Seq<char>, Seq<char>>;

/// How recording a source uri moves the src_uri table: a duplicate uri is
/// ignored, a fresh one is inserted with its file.
pub open spec fn spec_src_uri_insert(
    m: Map<Seq<char>, Seq<char>>,
    uri: Seq<char>,
    file: Seq<char>,
) -> Map<Seq<char>, Seq<char>> {
    if m.contains_key(uri) {
        m
    } else {
        m.insert(uri, file)
    }
}

/// How deleting a manifest row moves the src_uri table: every uri of the
/// deleted file goes with it.
pub open spec fn spec_cascade_delete(
    m: Map<Seq<char>, Seq<char>>,
    file: Seq<char>,
) -> Map<Seq<char>, Seq<char>> {
    Map::new(|u: Seq<char>| m.contains_key(u) && m[u] != file, |u: Seq<char>| m[u])
}

/// The uris recorded for a file.
pub open spec fn spec_uris_of(m: Map<Seq<char>, Seq<char>>, file: Seq<char>) -> Set<Seq<char>> {
    Set::new(|u: Seq<char>| m.contains_key(u) && m[u] == file)
}

/// Law: recording a source uri is idempotent under a duplicate uri —
/// recording the same pair twice leaves exactly the table that recording
/// it once leaves.
pub proof fn lemma_insert_src_uri_idempotent(
    m: Map<Seq<char>, Seq<char>>,
    uri: Seq<char>,
    file: Seq<char>,
)
    ensures
        spec_src_uri_insert(spec_src_uri_insert(m, uri, file), uri, file) == spec_src_uri_insert(
            m,
            uri,
            file,
        ),
{
    assert(spec_src_uri_insert(spec_src_uri_insert(m, uri, file), uri, file)
        =~= spec_src_uri_insert(m, uri, file));
}

/// Law: after a manifest row is deleted, no uri of that file remains —
/// the cascade removes them all.
pub proof fn lemma_delete_cascades(m: Map<Seq<char>, Seq<char>>, file: Seq<char>)
    ensures
        spec_uris_of(spec_cascade_delete(m, file), file) == Set::<Seq<char>>::empty(),
{
    assert(spec_uris_of(spec_cascade_delete(m, file), file) =~= Set::<Seq<char>>::empty());
}

impl RepoDB {
    /// The manifest table, keyed by filename.
    pub open spec fn manifest_view(&self) -> Map<Seq<char>, ManifestRow> {
        manifest_rows(*self)
    }

    /// The src_uri table: each uri with the filename it belongs to.
    pub open spec fn src_uri_view(&self) -> Map<Seq<char>, Seq<char>> {
        src_uri_rows(*self)
    }

    /// Relies on rusqlite's Connection::open, pragma_update and execute:
    /// opens (creating when missing) the database file, enables
    /// foreign-key enforcement, and creates the two tables when they are
    /// absent.  Nothing is assumed about rows an existing file already
    /// holds.
    #[verifier::external_body]
    fn open_at(path: &str) -> (r: Result<RepoDB, String>) {
        let conn = rusqlite::Connection::open(path).map_err(|e| e.to_string())?;
        conn.pragma_update(None, "foreign_keys", 1).map_err(|e| e.to_string())?;
        conn.execute(
            "CREATE TABLE IF NOT EXISTS manifest (file TEXT PRIMARY KEY NOT NULL, origin TEXT NOT NULL, size INTEGER NOT NULL, blake2b TEXT, sha512 TEXT)",
            (),
        ).map_err(|e| e.to_string())?;
        conn.execute(
            "CREATE TABLE IF NOT EXISTS src_uri (uri TEXT PRIMARY KEY NOT NULL, file TEXT REFERENCES manifest(file) ON UPDATE CASCADE ON DELETE CASCADE)",
            (),
        ).map_err(|e| e.to_string())?;
        Ok(RepoDB { conn })
    }

    /// Relies on rusqlite's Connection::open_in_memory, pragma_update and
    /// execute: a fresh in-memory database with foreign-key enforcement
    /// enabled and the two tables created empty.
    #[verifier::external_body]
    pub fn new_in_memory() -> (r: Result<RepoDB, String>)
        ensures
            r matches Ok(db) ==> {
                &&& manifest_rows(db) == Map::<Seq<char>, ManifestRow>::empty()
                &&& src_uri_rows(db) == Map::<Seq<char>, Seq<char>>::empty()
            },
    {
        let conn = rusqlite::Connection::open_in_memory().map_err(|e| e.to_string())?;
        conn.pragma_update(None, "foreign_keys", 1).map_err(|e| e.to_string())?;
        conn.execute(
            "CREATE TABLE IF NOT EXISTS manifest (file TEXT PRIMARY KEY NOT NULL, origin TEXT NOT NULL, size INTEGER NOT NULL, blake2b TEXT, sha512 TEXT)",
            (),
        ).map_err(|e| e.to_string())?;
        conn.execute(
            "CREATE TABLE IF NOT EXISTS src_uri (uri TEXT PRIMARY KEY NOT NULL, file TEXT REFERENCES manifest(file) ON UPDATE CASCADE ON DELETE CASCADE)",
            (),
        ).map_err(|e| e.to_string())?;
        Ok(RepoDB { conn })
    }

    /// Opens the index under the configured storage location.
    pub fn new(config: &Config) -> (r: Result<RepoDB, String>) {
        let path = concat_str(config.storage.location.as_str(), "/db.sqlite3");
        RepoDB::open_at(path.as_str())
    }

    /// Relies on rusqlite's Connection::execute running an upsert keyed
    /// on the filename: on success the manifest table holds exactly the
    /// entry's row under its filename, other rows untouched; a failed
    /// statement changes nothing.
    #[verifier::external_body]
    pub fn insert_manifest_entry(&mut self, entry: &ManifestEntry) -> (r: Result<(), String>)
        ensures
            r is Ok ==> manifest_rows(*final(self)) == manifest_rows(*old(self)).insert(
                entry.file@,
                (entry.origin@, entry.size, opt_view(entry.blake2b), opt_view(entry.sha512)),
            ),
            r is Ok ==> src_uri_rows(*final(self)) == src_uri_rows(*old(self)),
            r is Err ==> manifest_rows(*final(self)) == manifest_rows(*old(self))
                && src_uri_rows(*final(self)) == src_uri_rows(*old(self)),
    {
        self.conn.execute(
            "INSERT INTO manifest (file, origin, size, blake2b, sha512) VALUES (?1, ?2, ?3, ?4, ?5) \
             ON CONFLICT(file) DO UPDATE SET origin = excluded.origin, size = excluded.size, \
             blake2b = excluded.blake2b, sha512 = excluded.sha512",
            (&entry.file, &entry.origin, entry.size, &entry.blake2b, &entry.sha512),
        ).map_err(|e| e.to_string())?;
        Ok(())
    }

    /// Relies on rusqlite's Connection::execute running an insert that
    /// ignores a conflicting uri: on success a duplicate uri leaves the
    /// table as it is and a fresh uri is recorded for the file; with
    /// foreign keys enforced, success requires the file's manifest row
    /// (or the uri already present); a failed statement changes nothing.
    #[verifier::external_body]
    pub fn insert_src_uri(&mut self, file: &str, uri: &str) -> (r: Result<(), String>)
        ensures
            r is Ok ==> src_uri_rows(*final(self)) == spec_src_uri_insert(
                src_uri_rows(*old(self)),
                uri@,
                file@,
            ),
            r is Ok ==> src_uri_rows(*old(self)).contains_key(uri@) || manifest_rows(
                *old(self),
            ).contains_key(file@),
            manifest_rows(*final(self)) == manifest_rows(*old(self)),
            r is Err ==> src_uri_rows(*final(self)) == src_uri_rows(*old(self)),
    {
        self.conn.execute(
            "INSERT INTO src_uri (uri, file) VALUES (?1, ?2) ON CONFLICT(uri) DO NOTHING",
            (uri, file),
        ).map_err(|e| e.to_string())?;
        Ok(())
    }

    /// Relies on rusqlite's Connection::execute running a delete keyed on
    /// the filename, with foreign-key enforcement on: on success the
    /// file's manifest row is gone and the cascade has removed every uri
    /// recorded for it; a failed statement changes nothing.
    #[verifier::external_body]
    pub fn delete_manifest_entry(&mut self, file: &str) -> (r: Result<(), String>)
        ensures
            r is Ok ==> manifest_rows(*final(self)) == manifest_rows(*old(self)).remove(file@),
            r is Ok ==> src_uri_rows(*final(self)) == spec_cascade_delete(
                src_uri_rows(*old(self)),
                file@,
            ),
            r is Err ==> manifest_rows(*final(self)) == manifest_rows(*old(self))
                && src_uri_rows(*final(self)) == src_uri_rows(*old(self)),
    {
        self.conn.execute("DELETE FROM manifest WHERE file = ?1", [file]).map_err(
            |e| e.to_string(),
        )?;
        Ok(())
    }

    /// Relies on rusqlite's prepare and query_map running a select: on
    /// success the result holds exactly the uris recorded for the file,
    /// each once, in the order the engine returns them.
    #[verifier::external_body]
    pub fn get_src_uri(&self, file: &str) -> (r: Result<Vec<String>, String>)
        ensures
            r matches Ok(v) ==> {
                &&& forall|i: int|
                    0 <= i < v@.len() ==> src_uri_rows(*self).contains_key((#[trigger] v@[i])@)
                        && src_uri_rows(*self)[v@[i]@] == file@
                &&& forall|u: Seq<char>|
                    src_uri_rows(*self).contains_key(u) && src_uri_rows(*self)[u] == file@
                        ==> exists|i: int| 0 <= i < v@.len() && (#[trigger] v@[i])@ == u
                &&& forall|i: int, j: int| 0 <= i < j < v@.len() ==> (#[trigger] v@[i])@ != (
                #[trigger] v@[j])@
            },
    {
        let stmt = self.conn.prepare("SELECT uri FROM src_uri WHERE file = ?1");
        let mut stmt = stmt.map_err(|e| e.to_string())?;
        let rows = stmt.query_map([file], |row| row.get::<usize, String>(0));
        let rows = rows.map_err(|e| e.to_string())?;
        let mut out: Vec<String> = Vec::new();
        for row in rows {
            out.push(row.map_err(|e| e.to_string())?);
        }
        Ok(out)
    }

    /// The uris recorded for a file, with a database error standing for
    /// no recorded uris: the fetcher treats the two alike.
    pub fn get_src_uri_or_empty(&self, file: &str) -> (r: Vec<String>)
        ensures
            forall|i: int|
                0 <= i < r@.len() ==> src_uri_rows(*self).contains_key((#[trigger] r@[i])@)
                    && src_uri_rows(*self)[r@[i]@] == file@,
    {
        match self.get_src_uri(file) {
            Ok(v) => v,
            Err(_) => Vec::new(),
        }
    }
}

} // verus!
