//! The embedded key/value file: every call into `redb`.
//!
//! A [`redb::Database`] is seen as two families of tables. A *row* table maps
//! byte-string keys to values, a *cell* table maps string keys to values. Each
//! function here opens one transaction, so a write is applied whole or not at
//! all. The database has one owner and redb locks its file, so nothing changes
//! the contents between two calls.
use redb::{ReadableTable, TableDefinition};
use vstd::prelude::*;
use vstd::utf8;

verus! {

#[verifier::external_type_specification]
#[verifier::external_body]
pub struct ExDatabase(redb::Database);

#[verifier::external_type_specification]
#[verifier::external_body]
pub struct ExRedbError(redb::Error);

/// The tables of a database that have byte-string keys, by name.
pub uninterp spec fn row_tables(db: redb::Database) -> Map<Seq<char>, Map<Seq<u8>, Seq<u8>>>;

/// The tables of a database that have string keys, by name.
pub uninterp spec fn cell_tables(db: redb::Database) -> Map<Seq<char>, Map<Seq<char>, Seq<u8>>>;

/// All that a database holds.
#[verifier::ext_equal]
pub struct Tables {
    pub rows: Map<Seq<char>, Map<Seq<u8>, Seq<u8>>>,
    pub cells: Map<Seq<char>, Map<Seq<char>, Seq<u8>>>,
}

pub open spec fn tables(db: redb::Database) -> Tables {
    Tables { rows: row_tables(db), cells: cell_tables(db) }
}

impl Tables {
    pub open spec fn put_row(self, table: Seq<char>, key: Seq<u8>, value: Seq<u8>) -> Tables {
        Tables { rows: self.rows.insert(table, self.rows[table].insert(key, value)), ..self }
    }

    pub open spec fn put_cell(self, table: Seq<char>, key: Seq<char>, value: Seq<u8>) -> Tables {
        Tables { cells: self.cells.insert(table, self.cells[table].insert(key, value)), ..self }
    }

    pub open spec fn remove_cell(self, table: Seq<char>, key: Seq<char>) -> Tables {
        Tables { cells: self.cells.insert(table, self.cells[table].remove(key)), ..self }
    }

    /// Without the rows of `table` whose key is below `cutoff`.
    pub open spec fn prune_rows(self, table: Seq<char>, cutoff: Seq<u8>) -> Tables {
        let kept = self.rows[table].restrict(Set::new(|k: Seq<u8>| !bytes_less(k, cutoff)));
        Tables { rows: self.rows.insert(table, kept), ..self }
    }

    pub open spec fn create_rows(self, table: Seq<char>) -> Tables {
        if self.rows.contains_key(table) {
            self
        } else {
            Tables { rows: self.rows.insert(table, Map::empty()), ..self }
        }
    }

    pub open spec fn create_cells(self, table: Seq<char>) -> Tables {
        if self.cells.contains_key(table) {
            self
        } else {
            Tables { cells: self.cells.insert(table, Map::empty()), ..self }
        }
    }
}

/// Lexicographic order on byte strings: a proper prefix comes first.
pub open spec fn bytes_less(a: Seq<u8>, b: Seq<u8>) -> bool
    decreases a.len(),
{
    if b.len() == 0 {
        false
    } else if a.len() == 0 {
        true
    } else if a[0] != b[0] {
        a[0] < b[0]
    } else {
        bytes_less(a.skip(1), b.skip(1))
    }
}

/// What a transaction did to the contents: all of its effect where it reports
/// success, all or none of it where it fails.
pub open spec fn transacted(before: Tables, effect: Tables, ok: bool, after: Tables) -> bool {
    after == effect || (!ok && after == before)
}

/// `out` lists the table `m` in ascending order of keys.
pub open spec fn lists_cells(m: Map<Seq<char>, Seq<u8>>, out: Seq<(String, Vec<u8>)>) -> bool {
    &&& forall|i: int|
        0 <= i < out.len() ==> m.contains_key((#[trigger] out[i]).0@) && m[out[i].0@] == out[i].1@
    &&& forall|k: Seq<char>| #[trigger]
        m.contains_key(k) ==> exists|i: int| 0 <= i < out.len() && (#[trigger] out[i]).0@ == k
    &&& forall|i: int, j: int|
        0 <= i < j < out.len() ==> bytes_less(
            utf8::encode_utf8((#[trigger] out[i]).0@),
            utf8::encode_utf8((#[trigger] out[j]).0@),
        )
}

/// `out` lists the table `m` in ascending order of keys.
pub open spec fn lists_rows(m: Map<Seq<u8>, Seq<u8>>, out: Seq<(Vec<u8>, Vec<u8>)>) -> bool {
    &&& forall|i: int|
        0 <= i < out.len() ==> m.contains_key((#[trigger] out[i]).0@) && m[out[i].0@] == out[i].1@
    &&& forall|k: Seq<u8>| #[trigger]
        m.contains_key(k) ==> exists|i: int| 0 <= i < out.len() && (#[trigger] out[i]).0@ == k
    &&& forall|i: int, j: int|
        0 <= i < j < out.len() ==> bytes_less((#[trigger] out[i]).0@, (#[trigger] out[j]).0@)
}

/// `out` lists the `limit` last entries of the table `m`, in descending order of
/// keys: the whole table where it has no more.
pub open spec fn lists_last_rows(
    m: Map<Seq<u8>, Seq<u8>>,
    limit: nat,
    out: Seq<(Vec<u8>, Vec<u8>)>,
) -> bool {
    &&& out.len() <= limit
    &&& forall|i: int|
        0 <= i < out.len() ==> m.contains_key((#[trigger] out[i]).0@) && m[out[i].0@] == out[i].1@
    &&& forall|k: Seq<u8>| #[trigger]
        m.contains_key(k) ==> {
            ||| exists|i: int| 0 <= i < out.len() && (#[trigger] out[i]).0@ == k
            ||| out.len() == limit && forall|i: int|
                0 <= i < out.len() ==> bytes_less(k, (#[trigger] out[i]).0@)
        }
    &&& forall|i: int, j: int|
        0 <= i < j < out.len() ==> bytes_less((#[trigger] out[j]).0@, (#[trigger] out[i]).0@)
}

/// Opens the database file at `path`, creating it if absent.
///
/// Calls `Database::create` of `redb`. What an existing file holds is not
/// stated.
#[verifier::external_body]
pub(crate) fn open_database(path: &str) -> (res: Result<redb::Database, redb::Error>) {
    Ok(redb::Database::create(path)?)
}

/// Makes sure that two tables with byte-string keys and five with string keys exist,
/// in one transaction.
///
/// Calls `begin_write`, `open_table` and `commit` of `redb`: opening a table in a write
/// transaction creates it where it is absent.
#[verifier::external_body]
pub(crate) fn create_tables(
    db: &mut redb::Database,
    rows: (&str, &str),
    cells: (&str, &str, &str, &str, &str),
) -> (res: Result<(), redb::Error>)
    requires
        rows.0@.len() > 0,
        rows.1@.len() > 0,
        cells.0@.len() > 0,
        cells.1@.len() > 0,
        cells.2@.len() > 0,
        cells.3@.len() > 0,
        cells.4@.len() > 0,
    ensures
        transacted(
            tables(*old(db)),
            tables(*old(db)).create_rows(rows.0@).create_rows(rows.1@).create_cells(
                cells.0@,
            ).create_cells(cells.1@).create_cells(cells.2@).create_cells(cells.3@).create_cells(
                cells.4@,
            ),
            res is Ok,
            tables(*final(db)),
        ),
{
    let txn = db.begin_write()?;
    txn.open_table::<&[u8], &[u8]>(TableDefinition::new(rows.0))?;
    txn.open_table::<&[u8], &[u8]>(TableDefinition::new(rows.1))?;
    txn.open_table::<&str, &[u8]>(TableDefinition::new(cells.0))?;
    txn.open_table::<&str, &[u8]>(TableDefinition::new(cells.1))?;
    txn.open_table::<&str, &[u8]>(TableDefinition::new(cells.2))?;
    txn.open_table::<&str, &[u8]>(TableDefinition::new(cells.3))?;
    txn.open_table::<&str, &[u8]>(TableDefinition::new(cells.4))?;
    Ok(txn.commit()?)
}

/// Reads the value under a byte-string key.
///
/// Calls `begin_read`, `open_table` and `ReadOnlyTable::get` of `redb`: the
/// value in the table, or `None` where the key is absent.
#[verifier::external_body]
pub(crate) fn get_row(db: &redb::Database, table: &str, key: &[u8]) -> (res: Result<
    Option<Vec<u8>>,
    redb::Error,
>)
    requires
        row_tables(*db).contains_key(table@),
        table@.len() > 0,
    ensures
        res matches Ok(found) ==> match found {
            Some(value) => row_tables(*db)[table@].contains_key(key@) && value@ == row_tables(
                *db,
            )[table@][key@],
            None => !row_tables(*db)[table@].contains_key(key@),
        },
{
    let txn = db.begin_read()?;
    let t = txn.open_table(redb::TableDefinition::<&[u8], &[u8]>::new(table))?;
    let found = t.get(key)?;
    Ok(found.map(|value| value.value().to_vec()))
}

/// Reads the value under a string key.
///
/// Calls `begin_read`, `open_table` and `ReadOnlyTable::get` of `redb`: the
/// value in the table, or `None` where the key is absent.
#[verifier::external_body]
pub(crate) fn get_cell(db: &redb::Database, table: &str, key: &str) -> (res: Result<
    Option<Vec<u8>>,
    redb::Error,
>)
    requires
        cell_tables(*db).contains_key(table@),
        table@.len() > 0,
    ensures
        res matches Ok(found) ==> match found {
            Some(value) => cell_tables(*db)[table@].contains_key(key@) && value@ == cell_tables(
                *db,
            )[table@][key@],
            None => !cell_tables(*db)[table@].contains_key(key@),
        },
{
    let txn = db.begin_read()?;
    let t = txn.open_table(redb::TableDefinition::<&str, &[u8]>::new(table))?;
    let found = t.get(key)?;
    Ok(found.map(|value| value.value().to_vec()))
}

/// Lists a table with string keys.
///
/// Calls `begin_read`, `open_table` and `ReadOnlyTable::range` over all keys of
/// `redb`: every entry once, in ascending order of keys, which redb compares as
/// `str` does (by their UTF-8 bytes).
#[verifier::external_body]
pub(crate) fn list_cells(db: &redb::Database, table: &str) -> (res: Result<
    Vec<(String, Vec<u8>)>,
    redb::Error,
>)
    requires
        cell_tables(*db).contains_key(table@),
        table@.len() > 0,
    ensures
        res matches Ok(out) ==> lists_cells(cell_tables(*db)[table@], out@),
{
    let txn = db.begin_read()?;
    let t = txn.open_table(redb::TableDefinition::<&str, &[u8]>::new(table))?;
    let entries = t.range::<&str>(..)?;
    let out: Result<Vec<(String, Vec<u8>)>, redb::StorageError> = entries.map(
        |entry| entry.map(|(k, v)| (k.value().to_string(), v.value().to_vec())),
    ).collect();
    Ok(out?)
}

/// Lists a table with byte-string keys.
///
/// Calls `begin_read`, `open_table` and `ReadOnlyTable::range` over all keys of
/// `redb`: every entry once, in ascending order of keys, which redb compares
/// lexicographically.
#[verifier::external_body]
pub(crate) fn list_rows(db: &redb::Database, table: &str) -> (res: Result<
    Vec<(Vec<u8>, Vec<u8>)>,
    redb::Error,
>)
    requires
        row_tables(*db).contains_key(table@),
        table@.len() > 0,
    ensures
        res matches Ok(out) ==> lists_rows(row_tables(*db)[table@], out@),
{
    let txn = db.begin_read()?;
    let t = txn.open_table(redb::TableDefinition::<&[u8], &[u8]>::new(table))?;
    let entries = t.range::<&[u8]>(..)?;
    let out: Result<Vec<(Vec<u8>, Vec<u8>)>, redb::StorageError> = entries.map(
        |entry| entry.map(|(k, v)| (k.value().to_vec(), v.value().to_vec())),
    ).collect();
    Ok(out?)
}

/// Lists the last entries of a table with byte-string keys, last first.
///
/// Calls `begin_read`, `open_table` and `ReadOnlyTable::range` over all keys of
/// `redb`, walked backwards for `limit` entries. redb compares byte-string keys
/// lexicographically.
#[verifier::external_body]
pub(crate) fn last_rows(db: &redb::Database, table: &str, limit: usize) -> (res: Result<
    Vec<(Vec<u8>, Vec<u8>)>,
    redb::Error,
>)
    requires
        row_tables(*db).contains_key(table@),
        table@.len() > 0,
    ensures
        res matches Ok(out) ==> lists_last_rows(row_tables(*db)[table@], limit as nat, out@),
{
    let txn = db.begin_read()?;
    let t = txn.open_table(redb::TableDefinition::<&[u8], &[u8]>::new(table))?;
    let entries = t.range::<&[u8]>(..)?.rev().take(limit);
    let out: Result<Vec<(Vec<u8>, Vec<u8>)>, redb::StorageError> = entries.map(
        |entry| entry.map(|(k, v)| (k.value().to_vec(), v.value().to_vec())),
    ).collect();
    Ok(out?)
}

/// Stores one value under a byte-string key.
///
/// Calls `begin_write`, `open_table`, `Table::insert` and `commit` of `redb`.
#[verifier::external_body]
pub(crate) fn put_row(db: &mut redb::Database, table: &str, key: &[u8], value: &[u8]) -> (res:
    Result<(), redb::Error>)
    requires
        row_tables(*old(db)).contains_key(table@),
        table@.len() > 0,
    ensures
        transacted(
            tables(*old(db)),
            tables(*old(db)).put_row(table@, key@, value@),
            res is Ok,
            tables(*final(db)),
        ),
{
    let txn = db.begin_write()?;
    txn.open_table(redb::TableDefinition::<&[u8], &[u8]>::new(table))?.insert(key, value)?;
    txn.commit()?;
    Ok(())
}

/// Stores one value under a string key.
///
/// Calls `begin_write`, `open_table`, `Table::insert` and `commit` of `redb`.
#[verifier::external_body]
pub(crate) fn put_cell(db: &mut redb::Database, table: &str, key: &str, value: &[u8]) -> (res:
    Result<(), redb::Error>)
    requires
        cell_tables(*old(db)).contains_key(table@),
        table@.len() > 0,
    ensures
        transacted(
            tables(*old(db)),
            tables(*old(db)).put_cell(table@, key@, value@),
            res is Ok,
            tables(*final(db)),
        ),
{
    let txn = db.begin_write()?;
    txn.open_table(redb::TableDefinition::<&str, &[u8]>::new(table))?.insert(key, value)?;
    txn.commit()?;
    Ok(())
}

/// Stores one value under a byte-string key and one under a string key, in one
/// transaction.
///
/// Calls `begin_write`, `open_table`, `Table::insert` and `commit` of `redb`.
#[verifier::external_body]
pub(crate) fn put_row_and_cell(
    db: &mut redb::Database,
    row: (&str, &[u8], &[u8]),
    cell: (&str, &str, &[u8]),
) -> (res: Result<(), redb::Error>)
    requires
        row_tables(*old(db)).contains_key(row.0@),
        row.0@.len() > 0,
        cell_tables(*old(db)).contains_key(cell.0@),
        cell.0@.len() > 0,
    ensures
        transacted(
            tables(*old(db)),
            tables(*old(db)).put_row(row.0@, row.1@, row.2@).put_cell(cell.0@, cell.1@, cell.2@),
            res is Ok,
            tables(*final(db)),
        ),
{
    let txn = db.begin_write()?;
    txn.open_table(redb::TableDefinition::<&[u8], &[u8]>::new(row.0))?.insert(row.1, row.2)?;
    txn.open_table(redb::TableDefinition::<&str, &[u8]>::new(cell.0))?.insert(cell.1, cell.2)?;
    txn.commit()?;
    Ok(())
}

/// Stores two values under string keys, in one transaction.
///
/// Calls `begin_write`, `open_table`, `Table::insert` and `commit` of `redb`.
#[verifier::external_body]
pub(crate) fn put_two_cells(
    db: &mut redb::Database,
    first: (&str, &str, &[u8]),
    second: (&str, &str, &[u8]),
) -> (res: Result<(), redb::Error>)
    requires
        cell_tables(*old(db)).contains_key(first.0@),
        first.0@.len() > 0,
        cell_tables(*old(db)).contains_key(second.0@),
        second.0@.len() > 0,
    ensures
        transacted(
            tables(*old(db)),
            tables(*old(db)).put_cell(first.0@, first.1@, first.2@).put_cell(
                second.0@,
                second.1@,
                second.2@,
            ),
            res is Ok,
            tables(*final(db)),
        ),
{
    let txn = db.begin_write()?;
    txn.open_table(redb::TableDefinition::<&str, &[u8]>::new(first.0))?.insert(first.1, first.2)?;
    txn.open_table(redb::TableDefinition::<&str, &[u8]>::new(second.0))?.insert(
        second.1,
        second.2,
    )?;
    txn.commit()?;
    Ok(())
}

/// Removes a string key.
///
/// Calls `begin_write`, `open_table`, `Table::remove` and `commit` of `redb`.
#[verifier::external_body]
pub(crate) fn remove_cell(db: &mut redb::Database, table: &str, key: &str) -> (res: Result<
    (),
    redb::Error,
>)
    requires
        cell_tables(*old(db)).contains_key(table@),
        table@.len() > 0,
    ensures
        transacted(
            tables(*old(db)),
            tables(*old(db)).remove_cell(table@, key@),
            res is Ok,
            tables(*final(db)),
        ),
{
    let txn = db.begin_write()?;
    txn.open_table(redb::TableDefinition::<&str, &[u8]>::new(table))?.remove(key)?;
    txn.commit()?;
    Ok(())
}

/// Removes every row below `cutoff` from two tables, in one transaction.
///
/// Calls `begin_write`, `open_table`, `Table::retain_in` over the keys below
/// `cutoff` with a predicate that keeps none, and `commit` of `redb`.
#[verifier::external_body]
pub(crate) fn prune_rows(db: &mut redb::Database, first: &str, second: &str, cutoff: &[u8]) -> (res:
    Result<(), redb::Error>)
    requires
        row_tables(*old(db)).contains_key(first@),
        first@.len() > 0,
        row_tables(*old(db)).contains_key(second@),
        second@.len() > 0,
        first@ != second@,
    ensures
        transacted(
            tables(*old(db)),
            tables(*old(db)).prune_rows(first@, cutoff@).prune_rows(second@, cutoff@),
            res is Ok,
            tables(*final(db)),
        ),
{
    let txn = db.begin_write()?;
    txn.open_table(redb::TableDefinition::<&[u8], &[u8]>::new(first))?.retain_in(
        ..cutoff,
        |_, _| false,
    )?;
    txn.open_table(redb::TableDefinition::<&[u8], &[u8]>::new(second))?.retain_in(
        ..cutoff,
        |_, _| false,
    )?;
    txn.commit()?;
    Ok(())
}

/// Defragments the file.
///
/// Calls `Database::compact` of `redb`, which moves pages and leaves every table
/// as it is. Whether there was anything to reclaim is not stated.
#[verifier::external_body]
pub(crate) fn compact_file(db: &mut redb::Database) -> (res: Result<bool, redb::Error>)
    ensures
        tables(*final(db)) == tables(*old(db)),
{
    Ok(db.compact()?)
}

} // verus!
