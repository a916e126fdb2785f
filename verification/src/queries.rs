//! The SQL statements of the local store.
use vstd::prelude::*;
use vstd::string::StringExecFns;

verus! {

/// The table that holds the records.
pub const TABLE_NAME: &'static str = "sensor_data";

/// Texts one after the other.
pub open spec fn concatenated(parts: Seq<&str>) -> Seq<char>
    decreases parts.len(),
{
    if parts.len() == 0 {
        Seq::empty()
    } else {
        concatenated(parts.drop_last()) + parts.last()@
    }
}

/// Texts one after the other, without anything between them, left out or added.
pub proof fn concatenated_is_flat(parts: Seq<&str>, texts: Seq<Seq<char>>)
    requires
        texts.len() == parts.len(),
        forall|i: int| 0 <= i < parts.len() ==> #[trigger] texts[i] == parts[i]@,
    ensures
        concatenated(parts) == texts.flatten(),
    decreases parts.len(),
{
    if parts.len() > 0 {
        let init = texts.drop_last();
        assert forall|i: int| 0 <= i < init.len() implies #[trigger] init[i]
            == parts.drop_last()[i]@ by {
            assert(init[i] == texts[i]);
        }
        concatenated_is_flat(parts.drop_last(), init);
        texts.lemma_flatten_and_flatten_alt_are_equivalent();
        init.lemma_flatten_and_flatten_alt_are_equivalent();
        assert(texts[texts.len() - 1] == texts.last());
    }
}

/// Puts texts one after the other.
pub fn concat_parts(parts: &[&str]) -> (s: String)
    ensures
        s@ == concatenated(parts@),
        s@ == Seq::new(parts@.len(), |i: int| parts@[i]@).flatten(),
{
    proof {
        concatenated_is_flat(parts@, Seq::new(parts@.len(), |i: int| parts@[i]@));
    }
    let mut s = String::new();
    let mut i: usize = 0;
    while i < parts.len()
        invariant
            i <= parts@.len(),
            s@ == concatenated(parts@.take(i as int)),
        decreases parts@.len() - i,
    {
        s.append(parts[i]);
        proof {
            assert(parts@.take(i + 1).drop_last() == parts@.take(i as int));
        }
        i = i + 1;
    }
    proof {
        assert(parts@.take(i as int) == parts@);
    }
    s
}

/// Makes the table where there is none.
pub fn table_query() -> (s: String)
    ensures
        s@ == "CREATE TABLE IF NOT EXISTS "@ + TABLE_NAME@
            + " (id INTEGER PRIMARY KEY AUTOINCREMENT, data BLOB NOT NULL)"@,
        s@ == "CREATE TABLE IF NOT EXISTS sensor_data (id INTEGER PRIMARY KEY AUTOINCREMENT, data BLOB NOT NULL)"@,
{
    let parts: [&str; 3] = [
        "CREATE TABLE IF NOT EXISTS ",
        TABLE_NAME,
        " (id INTEGER PRIMARY KEY AUTOINCREMENT, data BLOB NOT NULL)",
    ];
    let s = concat_parts(&parts);
    proof {
        reveal_with_fuel(concatenated, 4);
        reveal_strlit("CREATE TABLE IF NOT EXISTS ");
        reveal_strlit("sensor_data");
        reveal_strlit(" (id INTEGER PRIMARY KEY AUTOINCREMENT, data BLOB NOT NULL)");
        reveal_strlit("CREATE TABLE IF NOT EXISTS sensor_data (id INTEGER PRIMARY KEY AUTOINCREMENT, data BLOB NOT NULL)");
    }
    s
}

/// Stores a record, which is the statement's parameter.
pub fn insert_query() -> (s: String)
    ensures
        s@ == "INSERT INTO "@ + TABLE_NAME@ + " (data) VALUES (?1)"@,
        s@ == "INSERT INTO sensor_data (data) VALUES (?1)"@,
{
    let parts: [&str; 3] = ["INSERT INTO ", TABLE_NAME, " (data) VALUES (?1)"];
    let s = concat_parts(&parts);
    proof {
        reveal_with_fuel(concatenated, 4);
        reveal_strlit("INSERT INTO ");
        reveal_strlit("sensor_data");
        reveal_strlit(" (data) VALUES (?1)");
        reveal_strlit("INSERT INTO sensor_data (data) VALUES (?1)");
    }
    s
}

/// Deletes some records and returns them. How many at most is the statement's parameter.
pub fn batch_query() -> (s: String)
    ensures
        s@ == "DELETE FROM "@ + TABLE_NAME@ + " WHERE id IN (SELECT id FROM "@ + TABLE_NAME@
            + " LIMIT ?1) RETURNING *"@,
        s@ == "DELETE FROM sensor_data WHERE id IN (SELECT id FROM sensor_data LIMIT ?1) RETURNING *"@,
{
    let parts: [&str; 5] = [
        "DELETE FROM ",
        TABLE_NAME,
        " WHERE id IN (SELECT id FROM ",
        TABLE_NAME,
        " LIMIT ?1) RETURNING *",
    ];
    let s = concat_parts(&parts);
    proof {
        reveal_with_fuel(concatenated, 6);
        reveal_strlit("DELETE FROM ");
        reveal_strlit("sensor_data");
        reveal_strlit(" WHERE id IN (SELECT id FROM ");
        reveal_strlit(" LIMIT ?1) RETURNING *");
        reveal_strlit("DELETE FROM sensor_data WHERE id IN (SELECT id FROM sensor_data LIMIT ?1) RETURNING *");
    }
    s
}

/// Prepares the store: sets the journal mode, and makes the table where there is none.
pub fn setup_batch() -> (s: String)
    ensures
        s@ == "PRAGMA journal_mode=WAL; "@ + ("CREATE TABLE IF NOT EXISTS "@ + TABLE_NAME@
            + " (id INTEGER PRIMARY KEY AUTOINCREMENT, data BLOB NOT NULL)"@) + ";"@,
        s@ == "PRAGMA journal_mode=WAL; CREATE TABLE IF NOT EXISTS sensor_data (id INTEGER PRIMARY KEY AUTOINCREMENT, data BLOB NOT NULL);"@,
{
    let mut s = "PRAGMA journal_mode=WAL; ".to_owned();
    s.append(table_query().as_str());
    s.append(";");
    proof {
        reveal_strlit("PRAGMA journal_mode=WAL; ");
        reveal_strlit("CREATE TABLE IF NOT EXISTS sensor_data (id INTEGER PRIMARY KEY AUTOINCREMENT, data BLOB NOT NULL)");
        reveal_strlit(";");
        reveal_strlit("PRAGMA journal_mode=WAL; CREATE TABLE IF NOT EXISTS sensor_data (id INTEGER PRIMARY KEY AUTOINCREMENT, data BLOB NOT NULL);");
    }
    s
}

} // verus!
