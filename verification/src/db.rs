use vstd::prelude::*;
use vstd::string::*;

verus! {

/// The file that the DuckDB store keeps its data in.
pub const DUCKDB_PATH: &'static str = "storage.duckdb";

/// The SQLite database that the SQLite store keeps its data in, created when missing.
pub const SQLITE_URL: &'static str = "sqlite://storage.db";

/// The tables of the DuckDB store: requests, their headers and their bodies.
pub const DUCKDB_SCHEMA: &'static str = "
            CREATE SEQUENCE IF NOT EXISTS 'requests_key_seq';
            CREATE TABLE IF NOT EXISTS requests (
                id INTEGER PRIMARY KEY  DEFAULT NEXTVAL('requests_key_seq'),
                method TEXT NOT NULL,
                path TEXT NOT NULL,
                content_length INTEGER,
                content_type TEXT,
                user_agent TEXT,
                client_s_ip TEXT,
                created_at TIMESTAMP DEFAULT CURRENT_TIMESTAMP
            );
            CREATE TABLE IF NOT EXISTS request_headers (
                request_id INTEGER NOT NULL,
                name TEXT NOT NULL,
                value TEXT,
                FOREIGN KEY (request_id) REFERENCES requests (id)
            );
            CREATE TABLE IF NOT EXISTS request_bodies (
                request_id INTEGER NOT NULL,
                body BLOB,
                FOREIGN KEY (request_id) REFERENCES requests (id)
            );";

/// The migration of the DuckDB store that adds the `query` column.
pub const DUCKDB_ADD_QUERY_COLUMN: &'static str = "ALTER TABLE requests ADD COLUMN IF NOT EXISTS query TEXT;";

/// Inserts a request's row into the DuckDB store and gives back the row.
pub const DUCKDB_INSERT_REQUEST: &'static str = "INSERT INTO requests (method, path, query, content_length, content_type, user_agent, client_s_ip)
             VALUES (?, ?, ?, ?, ?, ?, ?) RETURNING *";

/// The table of requests of the SQLite store.
pub const SQLITE_CREATE_REQUESTS: &'static str = "CREATE TABLE IF NOT EXISTS requests (
                id INTEGER PRIMARY KEY AUTOINCREMENT,
                method TEXT NOT NULL,
                path TEXT NOT NULL,
                content_length INTEGER,
                content_type TEXT,
                user_agent TEXT,
                client_s_ip TEXT,
                created_at DATETIME DEFAULT CURRENT_TIMESTAMP
            );";

/// The table of request headers of the SQLite store.
pub const SQLITE_CREATE_HEADERS: &'static str = "CREATE TABLE IF NOT EXISTS request_headers (
                id INTEGER PRIMARY KEY AUTOINCREMENT,
                request_id INTEGER NOT NULL,
                name TEXT NOT NULL,
                value TEXT,
                FOREIGN KEY (request_id) REFERENCES requests (id) ON DELETE CASCADE
            );";

/// The table of request bodies of the SQLite store.
pub const SQLITE_CREATE_BODIES: &'static str = "CREATE TABLE IF NOT EXISTS request_bodies (
                id INTEGER PRIMARY KEY AUTOINCREMENT,
                request_id INTEGER NOT NULL,
                body BLOB,
                FOREIGN KEY (request_id) REFERENCES requests (id) ON DELETE CASCADE
            );";

/// The migration of the SQLite store that adds the `query` column.
pub const SQLITE_ADD_QUERY_COLUMN: &'static str = "ALTER TABLE requests ADD COLUMN query TEXT;";

/// The description of the migration that adds the `query` column.
pub const ADD_QUERY_COLUMN_DESCRIPTION: &'static str = "add 'query' column";

/// Inserts a request's row into the SQLite store and gives back its id.
pub const SQLITE_INSERT_REQUEST: &'static str = "INSERT INTO requests (method, path, query, content_length, content_type, user_agent, client_s_ip)
             VALUES (?, ?, ?, ?, ?, ?, ?) RETURNING id";

/// Inserts one header row of a request.
pub const INSERT_HEADER: &'static str = "INSERT INTO request_headers (request_id, name, value) VALUES (?, ?, ?)";

/// Inserts the body of a request.
pub const INSERT_BODY: &'static str = "INSERT INTO request_bodies (request_id, body) VALUES (?, ?)";

/// The DuckDB store of captured requests, kept in the file `storage.duckdb`.
/// Opening the file is the caller's I/O; the store says where it is.
pub struct DuckdbStorage {
    path: String,
}

impl View for DuckdbStorage {
    type V = Seq<char>;

    /// The path of the database file.
    closed spec fn view(&self) -> Seq<char> {
        self.path@
    }
}

impl DuckdbStorage {
    /// The DuckDB store in `storage.duckdb`.
    pub fn new() -> (r: DuckdbStorage)
        ensures
            r@ == DUCKDB_PATH@,
    {
        DuckdbStorage { path: String::from_str(DUCKDB_PATH) }
    }

    /// The path of the database file.
    pub fn path(&self) -> (r: &str)
        ensures
            r@ == self@,
    {
        self.path.as_str()
    }
}

} // verus!
