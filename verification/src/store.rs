use vstd::prelude::*;
use crate::date::{Date, date_text, valid_date, format_date, parse_date, date_in_range};
use crate::date::{digit_char, digit_str};
use crate::date::lemma_parse_is_canonical;
use crate::error::LogError;

verus! {

// ---------------------------------------------------------------------------
// The outside storage engine.
//
// Entries persist in one SQLite table, reached through a single
// `rusqlite::Connection` that this process alone holds. The connection is
// opaque; its table is modelled as a map from entry id to the stored date
// text and description, and each statement the store issues is a trusted
// wrapper whose contract states what that statement does to the map.
// ---------------------------------------------------------------------------

#[verifier::external_type_specification]
#[verifier::external_body]
pub struct ExConnection(rusqlite::Connection);

#[verifier::external_type_specification]
#[verifier::external_body]
pub struct ExSqlError(rusqlite::Error);

/// The contents of the `logs` table behind a connection: each entry id to
/// its stored `(date text, description)` pair. Empty if the table is absent.
pub uninterp spec fn table_rows(c: rusqlite::Connection) -> Map<i64, (Seq<char>, Seq<char>)>;

/// One journal entry: a stable id the store assigned, a calendar date, and
/// the entry's text.
#[derive(Clone, Debug, PartialEq, Eq)]
pub struct Entry {
    pub id: i64,
    pub date: Date,
    pub description: String,
}

/// An entry faithfully reflects a row of the table: its id is present and
/// the row holds its date's canonical text and its description verbatim.
pub open spec fn entry_for(table: Map<i64, (Seq<char>, Seq<char>)>, e: Entry) -> bool {
    &&& table.dom().contains(e.id)
    &&& valid_date(e.date)
    &&& table[e.id] == (date_text(e.date), e.description@)
}

/// A listing is exactly the table's rows whose date text matches the query
/// (every row, when there is no query), in strictly increasing id order.
pub open spec fn listing_of(
    table: Map<i64, (Seq<char>, Seq<char>)>,
    q: Option<Date>,
    v: Seq<Entry>,
) -> bool {
    &&& forall|i: int|
        0 <= i < v.len() ==> entry_for(table, #[trigger] v[i]) && (q matches Some(d) ==> v[i].date
            == d)
    &&& forall|id: i64|
        #[trigger] table.dom().contains(id) && (q matches Some(d) ==> table[id].0 == date_text(d))
            ==> exists|i: int| 0 <= i < v.len() && (#[trigger] v[i]).id == id
    &&& forall|i: int, j: int|
        0 <= i < j < v.len() ==> (#[trigger] v[i]).id < (#[trigger] v[j]).id
}

/// Raw rows a select handed back: each one a table row whose date text
/// matches the query, all matching ids covered, in strictly increasing id
/// order.
pub open spec fn raw_rows_for(
    table: Map<i64, (Seq<char>, Seq<char>)>,
    q: Option<Seq<char>>,
    rows: Seq<(i64, String, String)>,
) -> bool {
    &&& forall|i: int|
        0 <= i < rows.len() ==> {
            &&& table.dom().contains((#[trigger] rows[i]).0)
            &&& table[rows[i].0] == (rows[i].1@, rows[i].2@)
            &&& (q matches Some(t) ==> rows[i].1@ == t)
        }
    &&& forall|id: i64|
        #[trigger] table.dom().contains(id) && (q matches Some(t) ==> table[id].0 == t) ==> exists|
            i: int,
        | 0 <= i < rows.len() && (#[trigger] rows[i]).0 == id
    &&& forall|i: int, j: int|
        0 <= i < j < rows.len() ==> (#[trigger] rows[i]).0 < (#[trigger] rows[j]).0
}

/// The row an update leaves behind: the supplied fields replace the old
/// ones, the omitted ones stay.
pub open spec fn updated_row(
    row: (Seq<char>, Seq<char>),
    date: Option<Date>,
    desc: Option<Seq<char>>,
) -> (Seq<char>, Seq<char>) {
    (
        match date {
            Some(d) => date_text(d),
            None => row.0,
        },
        match desc {
            Some(s) => s,
            None => row.1,
        },
    )
}

/// The view of an optional borrowed text.
pub open spec fn opt_text(s: Option<&str>) -> Option<Seq<char>> {
    match s {
        Some(t) => Some(t@),
        None => None,
    }
}

/// The store of journal entries: one SQLite table of dated text rows.
pub struct LogStore {
    conn: rusqlite::Connection,
}

impl LogStore {
    /// The table contents: each entry id to its stored date text and
    /// description.
    pub closed spec fn rows(self) -> Map<i64, (Seq<char>, Seq<char>)> {
        table_rows(self.conn)
    }

    /// Relies on rusqlite's `Connection::open` and `Connection::execute`:
    /// opens or creates the database file at `path` and creates the `logs`
    /// table if it is absent, which leaves any existing rows as they are.
    /// The file may already hold entries, so of the contents only this is
    /// promised: a SQLite table holds finitely many rows.
    #[verifier::external_body]
    fn open_raw(path: &str) -> (r: Result<LogStore, rusqlite::Error>)
        ensures
            r matches Ok(s) ==> table_rows(s.conn).dom().finite(),
    {
        let conn = rusqlite::Connection::open(path)?;
        conn.execute(
            "CREATE TABLE IF NOT EXISTS logs (id INTEGER PRIMARY KEY AUTOINCREMENT, date TEXT NOT NULL, description TEXT NOT NULL)",
            (),
        )?;
        Ok(LogStore { conn })
    }

    /// Relies on rusqlite's `Connection::open_in_memory` and
    /// `Connection::execute`: a fresh in-memory database is always empty,
    /// so the new store holds no rows.
    #[verifier::external_body]
    fn open_in_memory_raw() -> (r: Result<LogStore, rusqlite::Error>)
        ensures
            r matches Ok(s) ==> table_rows(s.conn).dom() =~= Set::empty(),
    {
        let conn = rusqlite::Connection::open_in_memory()?;
        conn.execute(
            "CREATE TABLE IF NOT EXISTS logs (id INTEGER PRIMARY KEY AUTOINCREMENT, date TEXT NOT NULL, description TEXT NOT NULL)",
            (),
        )?;
        Ok(LogStore { conn })
    }

    /// Relies on rusqlite's `Connection::query_row` running
    /// `INSERT ... RETURNING id`: the statement adds one row holding the
    /// given texts verbatim, under an id SQLite's AUTOINCREMENT assigns,
    /// which is at least 1 and never one already present; on failure the
    /// table is unchanged.
    #[verifier::external_body]
    fn db_insert(&mut self, date: &str, desc: &str) -> (r: Result<i64, rusqlite::Error>)
        ensures
            r matches Ok(id) ==> 1 <= id && !old(self).rows().dom().contains(id) && final(self).rows() == old(self).rows().insert(id, (date@, desc@)),
            r is Err ==> final(self).rows() == old(self).rows(),
    {
        self.conn.query_row(
            "INSERT INTO logs (date, description) VALUES (?1, ?2) RETURNING id",
            (date, desc),
            |row| row.get(0),
        )
    }

    /// Relies on rusqlite's `Connection::query_row` with
    /// `OptionalExtension::optional` running `SELECT ... WHERE id = ?1`:
    /// the row with that id, or `None` when no row has it.
    #[verifier::external_body]
    fn db_select_by_id(&self, id: i64) -> (r: Result<Option<(String, String)>, rusqlite::Error>)
        ensures
            r matches Ok(Some(row)) ==> self.rows().dom().contains(id) && self.rows()[id] == (
                row.0@,
                row.1@,
            ),
            r matches Ok(None) ==> !self.rows().dom().contains(id),
    {
        rusqlite::OptionalExtension::optional(self.conn.query_row(
            "SELECT date, description FROM logs WHERE id = ?1",
            (id,),
            |row| Ok((row.get(0)?, row.get(1)?)),
        ))
    }

    /// Relies on rusqlite's `Connection::prepare` and `Statement::query_map`
    /// running `SELECT ... ORDER BY id`: every row of the table, in
    /// strictly increasing id order.
    #[verifier::external_body]
    fn db_select_all(&self) -> (r: Result<Vec<(i64, String, String)>, rusqlite::Error>)
        ensures
            r matches Ok(v) ==> raw_rows_for(self.rows(), Option::<Seq<char>>::None, v@),
    {
        let mut stmt = self.conn.prepare(
            "SELECT id, date, description FROM logs ORDER BY id",
        )?;
        let rows = stmt.query_map((), |row| Ok((row.get(0)?, row.get(1)?, row.get(2)?)))?;
        rows.collect()
    }

    /// Relies on rusqlite's `Connection::prepare` and `Statement::query_map`
    /// running `SELECT ... WHERE date = ?1 ORDER BY id`: exactly the rows
    /// whose stored date text equals the given text, in strictly increasing
    /// id order.
    #[verifier::external_body]
    fn db_select_by_date(&self, date: &str) -> (r: Result<
        Vec<(i64, String, String)>,
        rusqlite::Error,
    >)
        ensures
            r matches Ok(v) ==> raw_rows_for(self.rows(), Some(date@), v@),
    {
        let mut stmt = self.conn.prepare(
            "SELECT id, date, description FROM logs WHERE date = ?1 ORDER BY id",
        )?;
        let rows = stmt.query_map((date,), |row| Ok((row.get(0)?, row.get(1)?, row.get(2)?)))?;
        rows.collect()
    }

    /// Relies on rusqlite's `Connection::execute` running
    /// `UPDATE logs SET date = ?1, description = ?2 WHERE id = ?3`: when a
    /// row has that id both its texts are replaced and the count is 1,
    /// otherwise nothing changes and the count is 0; on failure the table
    /// is unchanged.
    #[verifier::external_body]
    fn db_update_both(&mut self, id: i64, date: &str, desc: &str) -> (r: Result<
        usize,
        rusqlite::Error,
    >)
        ensures
            r matches Ok(n) ==> (old(self).rows().dom().contains(id) ==> n == 1 && final(self).rows() == old(self).rows().insert(id, (date@, desc@))),
            r matches Ok(n) ==> (!old(self).rows().dom().contains(id) ==> n == 0 && final(self).rows() == old(self).rows()),
            r is Err ==> final(self).rows() == old(self).rows(),
    {
        self.conn.execute(
            "UPDATE logs SET date = ?1, description = ?2 WHERE id = ?3",
            (date, desc, id),
        )
    }

    /// Relies on rusqlite's `Connection::execute` running
    /// `UPDATE logs SET date = ?1 WHERE id = ?2`: when a row has that id its
    /// date text is replaced, its description kept, and the count is 1,
    /// otherwise nothing changes and the count is 0; on failure the table
    /// is unchanged.
    #[verifier::external_body]
    fn db_update_date(&mut self, id: i64, date: &str) -> (r: Result<usize, rusqlite::Error>)
        ensures
            r matches Ok(n) ==> (old(self).rows().dom().contains(id) ==> n == 1 && final(self).rows() == old(self).rows().insert(id, (date@, old(self).rows()[id].1))),
            r matches Ok(n) ==> (!old(self).rows().dom().contains(id) ==> n == 0 && final(self).rows() == old(self).rows()),
            r is Err ==> final(self).rows() == old(self).rows(),
    {
        self.conn.execute("UPDATE logs SET date = ?1 WHERE id = ?2", (date, id))
    }

    /// Relies on rusqlite's `Connection::execute` running
    /// `UPDATE logs SET description = ?1 WHERE id = ?2`: when a row has that
    /// id its description is replaced, its date text kept, and the count is
    /// 1, otherwise nothing changes and the count is 0; on failure the
    /// table is unchanged.
    #[verifier::external_body]
    fn db_update_desc(&mut self, id: i64, desc: &str) -> (r: Result<usize, rusqlite::Error>)
        ensures
            r matches Ok(n) ==> (old(self).rows().dom().contains(id) ==> n == 1 && final(self).rows() == old(self).rows().insert(id, (old(self).rows()[id].0, desc@))),
            r matches Ok(n) ==> (!old(self).rows().dom().contains(id) ==> n == 0 && final(self).rows() == old(self).rows()),
            r is Err ==> final(self).rows() == old(self).rows(),
    {
        self.conn.execute("UPDATE logs SET description = ?1 WHERE id = ?2", (desc, id))
    }

    /// Relies on rusqlite's `Connection::execute` running
    /// `DELETE FROM logs WHERE id = ?1`: the row with that id is gone and
    /// the count says whether one was there; on failure the table is
    /// unchanged.
    #[verifier::external_body]
    fn db_delete(&mut self, id: i64) -> (r: Result<usize, rusqlite::Error>)
        ensures
            r matches Ok(n) ==> final(self).rows() == old(self).rows().remove(id) && n == (
            if old(self).rows().dom().contains(id) {
                1int
            } else {
                0int
            }),
            r is Err ==> final(self).rows() == old(self).rows(),
    {
        self.conn.execute("DELETE FROM logs WHERE id = ?1", (id,))
    }

    /// Opens (or creates) the store in the database file at `path`. The
    /// file may already hold entries, which all stay.
    pub fn open(path: &str) -> (r: Result<LogStore, LogError>)
        ensures
            r matches Err(e) ==> e == LogError::Storage,
    {
        match Self::open_raw(path) {
            Ok(s) => Ok(s),
            Err(_) => Err(LogError::Storage),
        }
    }

    /// Opens a fresh, empty store held in memory only.
    pub fn open_in_memory() -> (r: Result<LogStore, LogError>)
        ensures
            r matches Ok(s) ==> s.rows().dom() == Set::<i64>::empty(),
            r matches Err(e) ==> e == LogError::Storage,
    {
        match Self::open_in_memory_raw() {
            Ok(s) => Ok(s),
            Err(_) => Err(LogError::Storage),
        }
    }

    /// Adds one entry and returns its new id. The date defaults to the
    /// current local calendar date when omitted; an empty description is
    /// rejected before any store access.
    pub fn create(&mut self, date: Option<Date>, description: &str) -> (r: Result<i64, LogError>)
        requires
            date matches Some(d) ==> valid_date(d),
        ensures
            r matches Ok(id) ==> 1 <= id && !old(self).rows().dom().contains(id),
            r matches Ok(id) ==> (date matches Some(d) ==> final(self).rows() == old(
                self,
            ).rows().insert(id, (date_text(d), description@))),
            r matches Ok(id) ==> (date is None ==> (exists|d: Date|
                valid_date(d) && final(self).rows() == old(self).rows().insert(
                    id,
                    (date_text(d), description@),
                ))),
            r is Err ==> final(self).rows() == old(self).rows(),
            r matches Err(e) ==> e == LogError::Storage || e == LogError::InvalidArgument,
            description@.len() == 0 ==> r == Err::<i64, LogError>(LogError::InvalidArgument),
            r == Err::<i64, LogError>(LogError::InvalidArgument) ==> description@.len() == 0
                || date is None,
    {
        if description.is_empty() {
            return Err(LogError::InvalidArgument);
        }
        let d: Date = match date {
            Some(given) => given,
            None => {
                let parts = current_date_parts();
                let today = Date { year: parts.0, month: parts.1, day: parts.2 };
                if !date_in_range(&today) {
                    return Err(LogError::InvalidArgument);
                }
                today
            },
        };
        let text = format_date(&d);
        match self.db_insert(text.as_str(), description) {
            Ok(id) => Ok(id),
            Err(_) => Err(LogError::Storage),
        }
    }

    /// Fetches the entry with the given id, or `None` when there is none:
    /// a missing id is not an error. Fails only when the store cannot be
    /// read or the stored date text is not a canonical date.
    pub fn get_by_id(&self, id: i64) -> (r: Result<Option<Entry>, LogError>)
        ensures
            r matches Ok(o) ==> match o {
                Some(e) => e.id == id && entry_for(self.rows(), e),
                None => !self.rows().dom().contains(id),
            },
            r matches Err(e) ==> e == LogError::Storage,
    {
        match self.db_select_by_id(id) {
            Err(_) => Err(LogError::Storage),
            Ok(None) => Ok(None),
            Ok(Some(row)) => match parse_date(row.0.as_str()) {
                Ok(d) => {
                    proof {
                        lemma_parse_is_canonical(row.0@, d);
                    }
                    Ok(Some(Entry { id, date: d, description: row.1 }))
                },
                Err(_) => Err(LogError::Storage),
            },
        }
    }

    /// Lists every entry, in increasing id order. Fails only when the store
    /// cannot be read or a stored date text is not a canonical date.
    pub fn list_all(&self) -> (r: Result<Vec<Entry>, LogError>)
        ensures
            r matches Ok(v) ==> listing_of(self.rows(), Option::<Date>::None, v@),
            r matches Err(e) ==> e == LogError::Storage,
    {
        let raw = match self.db_select_all() {
            Ok(v) => v,
            Err(_) => {
                return Err(LogError::Storage);
            },
        };
        let mut out: Vec<Entry> = Vec::new();
        let mut i: usize = 0;
        while i < raw.len()
            invariant
                i <= raw.len(),
                raw_rows_for(self.rows(), Option::<Seq<char>>::None, raw@),
                out@.len() == i,
                forall|k: int|
                    0 <= k < i ==> entry_for(self.rows(), #[trigger] out@[k]) && out@[k].id
                        == raw@[k].0,
            decreases raw.len() - i,
        {
            let row = &raw[i];
            match parse_date(row.1.as_str()) {
                Ok(d) => {
                    proof {
                        lemma_parse_is_canonical(raw@[i as int].1@, d);
                    }
                    out.push(Entry { id: row.0, date: d, description: row.2.clone() });
                },
                Err(_) => {
                    return Err(LogError::Storage);
                },
            }
            i = i + 1;
        }
        proof {
            assert forall|id: i64| #[trigger]
                self.rows().dom().contains(id) implies exists|k: int|
                0 <= k < out@.len() && (#[trigger] out@[k]).id == id by {
                let j = choose|j: int| 0 <= j < raw@.len() && (#[trigger] raw@[j]).0 == id;
                assert(out@[j].id == id);
            };
            assert forall|a: int, b: int|
                0 <= a < b < out@.len() implies (#[trigger] out@[a]).id < (
            #[trigger] out@[b]).id by {
                assert(out@[a].id == raw@[a].0);
                assert(out@[b].id == raw@[b].0);
            };
        }
        Ok(out)
    }

    /// Lists exactly the entries whose date equals the given one, in
    /// increasing id order.
    pub fn list_by_date(&self, date: &Date) -> (r: Result<Vec<Entry>, LogError>)
        requires
            valid_date(*date),
        ensures
            r matches Ok(v) ==> listing_of(self.rows(), Some(*date), v@),
            r matches Err(e) ==> e == LogError::Storage,
    {
        let text = format_date(date);
        let raw = match self.db_select_by_date(text.as_str()) {
            Ok(v) => v,
            Err(_) => {
                return Err(LogError::Storage);
            },
        };
        let mut out: Vec<Entry> = Vec::new();
        let mut i: usize = 0;
        while i < raw.len()
            invariant
                i <= raw.len(),
                valid_date(*date),
                raw_rows_for(self.rows(), Some(date_text(*date)), raw@),
                out@.len() == i,
                forall|k: int|
                    0 <= k < i ==> entry_for(self.rows(), #[trigger] out@[k]) && out@[k].id
                        == raw@[k].0 && out@[k].date == *date,
            decreases raw.len() - i,
        {
            let row = &raw[i];
            out.push(Entry { id: row.0, date: *date, description: row.2.clone() });
            i = i + 1;
        }
        proof {
            assert forall|id: i64| #[trigger]
                self.rows().dom().contains(id) && self.rows()[id].0 == date_text(
                *date,
            ) implies exists|k: int| 0 <= k < out@.len() && (#[trigger] out@[k]).id == id by {
                let j = choose|j: int| 0 <= j < raw@.len() && (#[trigger] raw@[j]).0 == id;
                assert(out@[j].id == id);
            };
            assert forall|a: int, b: int|
                0 <= a < b < out@.len() implies (#[trigger] out@[a]).id < (
            #[trigger] out@[b]).id by {
                assert(out@[a].id == raw@[a].0);
                assert(out@[b].id == raw@[b].0);
            };
        }
        Ok(out)
    }

    /// Updates only the supplied fields of the entry with the given id and
    /// returns how many rows changed: 1 when the id is present, else 0.
    /// Supplying neither field, or an empty description, is rejected before
    /// any store access.
    pub fn update(&mut self, id: i64, date: Option<Date>, description: Option<&str>) -> (r: Result<
        usize,
        LogError,
    >)
        requires
            date matches Some(d) ==> valid_date(d),
        ensures
            r matches Ok(n) ==> (old(self).rows().dom().contains(id) ==> n == 1 && final(self).rows() == old(self).rows().insert(
                id,
                updated_row(old(self).rows()[id], date, opt_text(description)),
            )),
            r matches Ok(n) ==> (!old(self).rows().dom().contains(id) ==> n == 0 && final(self).rows() == old(self).rows()),
            r is Err ==> final(self).rows() == old(self).rows(),
            r matches Err(e) ==> e == LogError::Storage || e == LogError::InvalidArgument,
            r == Err::<usize, LogError>(LogError::InvalidArgument) <==> ((date is None
                && description is None) || (description matches Some(s) && s@.len() == 0)),
    {
        match description {
            Some(s) => {
                if s.is_empty() {
                    return Err(LogError::InvalidArgument);
                }
            },
            None => {
                if date.is_none() {
                    return Err(LogError::InvalidArgument);
                }
            },
        }
        let outcome = match (date, description) {
            (Some(d), Some(s)) => {
                let text = format_date(&d);
                self.db_update_both(id, text.as_str(), s)
            },
            (Some(d), None) => {
                let text = format_date(&d);
                self.db_update_date(id, text.as_str())
            },
            (None, Some(s)) => self.db_update_desc(id, s),
            (None, None) => {
                return Err(LogError::InvalidArgument);
            },
        };
        match outcome {
            Ok(n) => Ok(n),
            Err(_) => Err(LogError::Storage),
        }
    }

    /// Removes the entry with the given id and returns how many rows were
    /// removed: 1 when the id was present, else 0.
    pub fn delete(&mut self, id: i64) -> (r: Result<usize, LogError>)
        ensures
            r matches Ok(n) ==> final(self).rows() == old(self).rows().remove(id) && n == (
            if old(self).rows().dom().contains(id) {
                1int
            } else {
                0int
            }),
            r is Err ==> final(self).rows() == old(self).rows(),
            r matches Err(e) ==> e == LogError::Storage,
    {
        match self.db_delete(id) {
            Ok(n) => Ok(n),
            Err(_) => Err(LogError::Storage),
        }
    }
}

/// The decimal digits of a number, most significant first, no leading
/// zeroes.
pub open spec fn dec_digits(n: nat) -> Seq<char>
    decreases n,
{
    if n < 10 {
        seq![digit_char(n as int)]
    } else {
        dec_digits(n / 10) + seq![digit_char(n as int % 10)]
    }
}

/// The text block an entry is shown as: its id, date and description, one
/// field per line.
pub open spec fn rendered(e: Entry) -> Seq<char> {
    "Record ID: "@ + dec_digits(e.id as nat) + "\nDate: "@ + date_text(e.date)
        + "\nDescription: "@ + e.description@
}

/// Appends the decimal digits of `n`.
fn push_decimal(s: &mut String, n: u64)
    ensures
        final(s)@ == old(s)@ + dec_digits(n as nat),
    decreases n,
{
    if n < 10 {
        s.append(digit_str(n as u32));
        proof {
            assert(s@ =~= old(s)@ + dec_digits(n as nat));
        }
    } else {
        push_decimal(s, n / 10);
        s.append(digit_str((n % 10) as u32));
        proof {
            assert(s@ =~= old(s)@ + dec_digits(n as nat));
        }
    }
}

impl Entry {
    /// The text block the entry is shown as, one field per line. Store
    /// entries always meet the conditions: their ids are positive and their
    /// dates valid.
    pub fn render(&self) -> (r: String)
        requires
            0 <= self.id,
            valid_date(self.date),
        ensures
            r@ == rendered(*self),
    {
        let mut s = String::new();
        s.append("Record ID: ");
        push_decimal(&mut s, self.id as u64);
        s.append("\nDate: ");
        let dt = format_date(&self.date);
        s.append(dt.as_str());
        s.append("\nDescription: ");
        s.append(self.description.as_str());
        proof {
            assert(s@ =~= rendered(*self));
        }
        s
    }
}

/// Relies on chrono's `Local::now` and the `Datelike` accessors of
/// `NaiveDate`: the current local calendar date as year, month and day
/// numbers. The month and day always name a real calendar day.
#[verifier::external_body]
fn current_date_parts() -> (r: (i32, u32, u32))
    ensures
        1 <= r.1 <= 12,
        1 <= r.2 <= 31,
{
    let today = chrono::Local::now().date_naive();
    (
        chrono::Datelike::year(&today),
        chrono::Datelike::month(&today),
        chrono::Datelike::day(&today),
    )
}

} // verus!
