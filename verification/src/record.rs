//! The JSON record of one serial reading.
use bytes::{Bytes, BytesMut};
use vstd::prelude::*;
use vstd::utf8::*;

verus! {

/// How many members the sensor object of a record has.
pub const COLUMNS: usize = 14;

/// What stands for a value that no sensor delivered.
pub const NULL_TEXT: &'static str = "null";

/// The member names of the sensor object, in order.
pub open spec fn column_names() -> Seq<Seq<char>> {
    seq![
        "lat"@,
        "lon"@,
        "accel_x"@,
        "accel_y"@,
        "accel_z"@,
        "gyro_x"@,
        "gyro_y"@,
        "gyro_z"@,
        "mag_x"@,
        "mag_y"@,
        "mag_z"@,
        "force"@,
        "linear"@,
        "string"@,
    ]
}

/// Where the value of a member comes from: the position of a sensor and of a field in its
/// reading. A member without a source is always null.
pub open spec fn column_source(k: int) -> Option<(int, int)> {
    if 2 <= k <= 7 {
        Some((2, k - 2))
    } else if k == 11 {
        Some((0, 0))
    } else if k == 12 {
        Some((1, 0))
    } else if k == 13 {
        Some((1, 1))
    } else {
        None
    }
}

/// The JSON text of null.
pub open spec fn null_bytes() -> Seq<u8> {
    encode_utf8(NULL_TEXT@)
}

/// Field `j` of sensor `i`, or null where there is none.
pub open spec fn part(parts: Seq<Seq<Seq<u8>>>, i: int, j: int) -> Seq<u8> {
    if 0 <= i < parts.len() && 0 <= j < parts[i].len() {
        parts[i][j]
    } else {
        null_bytes()
    }
}

/// The value of member `k` of the sensor object.
pub open spec fn column_value(parts: Seq<Seq<Seq<u8>>>, k: int) -> Seq<u8> {
    match column_source(k) {
        Some((i, j)) => part(parts, i, j),
        None => null_bytes(),
    }
}

/// What stands before the value of member `k`: the separator but for the first member, and the
/// member's name.
pub open spec fn column_head(k: int) -> Seq<u8> {
    encode_utf8(
        if k == 0 {
            "\""@
        } else {
            ", \""@
        },
    ) + encode_utf8(column_names()[k]) + encode_utf8("\": "@)
}

/// The first `n` members of the sensor object.
pub open spec fn members(parts: Seq<Seq<Seq<u8>>>, n: int) -> Seq<u8>
    decreases n,
{
    if n <= 0 {
        Seq::empty()
    } else {
        members(parts, n - 1) + column_head(n - 1) + column_value(parts, n - 1)
    }
}

/// The sensor object of a record.
pub open spec fn sensor_object(parts: Seq<Seq<Seq<u8>>>) -> Seq<u8> {
    encode_utf8("{"@) + members(parts, COLUMNS as int) + encode_utf8("}"@)
}

/// A record: the timestamp and the sensor object.
pub open spec fn record_bytes(timestamp: Seq<char>, parts: Seq<Seq<Seq<u8>>>) -> Seq<u8> {
    encode_utf8("{\"timestamp\": \""@) + encode_utf8(timestamp) + encode_utf8(
        "\", \"sensor_blob\": "@,
    ) + sensor_object(parts) + encode_utf8("}"@)
}

/// What the fields of all sensors hold.
pub open spec fn part_views(parts: Seq<Vec<Bytes>>) -> Seq<Seq<Seq<u8>>> {
    parts.map_values(|v: Vec<Bytes>| crate::fields::views(v@))
}

/// The name and the source of member `k`.
fn column(k: usize) -> (c: (&'static str, Option<(usize, usize)>))
    requires
        k < COLUMNS,
    ensures
        c.0@ == column_names()[k as int],
        column_source(k as int) == match c.1 {
            Some((i, j)) => Some((i as int, j as int)),
            None => None,
        },
{
    match k {
        0 => ("lat", None),
        1 => ("lon", None),
        2 => ("accel_x", Some((2, 0))),
        3 => ("accel_y", Some((2, 1))),
        4 => ("accel_z", Some((2, 2))),
        5 => ("gyro_x", Some((2, 3))),
        6 => ("gyro_y", Some((2, 4))),
        7 => ("gyro_z", Some((2, 5))),
        8 => ("mag_x", None),
        9 => ("mag_y", None),
        10 => ("mag_z", None),
        11 => ("force", Some((0, 0))),
        12 => ("linear", Some((1, 0))),
        _ => ("string", Some((1, 1))),
    }
}

/// Null, as a value of a record.
pub fn null_data() -> (b: Bytes)
    ensures
        crate::packet::bytes_of(b) == null_bytes(),
        crate::packet::bytes_of(b) == encode_utf8("null"@),
{
    Bytes::from_static(NULL_TEXT.as_bytes())
}

/// Field `j` of sensor `i`, or null where there is none.
pub fn get_part(parts: &Vec<Vec<Bytes>>, i: usize, j: usize) -> (b: Bytes)
    ensures
        crate::packet::bytes_of(b) == part(part_views(parts@), i as int, j as int),
        crate::packet::bytes_of(b) == if i < parts@.len() && j < parts@[i as int]@.len() {
            crate::packet::bytes_of(parts@[i as int]@[j as int])
        } else {
            encode_utf8("null"@)
        },
{
    if i < parts.len() && j < parts[i].len() {
        parts[i][j].clone()
    } else {
        null_data()
    }
}

/// The first members of the sensor object are no longer than more of them.
proof fn members_grow(parts: Seq<Seq<Seq<u8>>>, m: int, n: int)
    requires
        0 <= m <= n,
    ensures
        members(parts, m).len() <= members(parts, n).len(),
    decreases n,
{
    if m < n {
        members_grow(parts, m, n - 1);
    }
}

/// A member that no sensor stands for, or whose sensor or field there is not, is null; every other
/// member is a field of a reading, unchanged.
pub proof fn members_are_fields_or_null(parts: Seq<Seq<Seq<u8>>>, k: int)
    requires
        0 <= k < COLUMNS,
    ensures
        match column_source(k) {
            Some((i, j)) => column_value(parts, k) == if i < parts.len() && j < parts[i].len() {
                parts[i][j]
            } else {
                null_bytes()
            },
            None => column_value(parts, k) == null_bytes(),
        },
{
}

/// A record holds its timestamp and its sensor object unchanged, each in its place.
pub proof fn record_holds_timestamp_and_object(timestamp: Seq<char>, parts: Seq<Seq<Seq<u8>>>)
    ensures
        ({
            let all = record_bytes(timestamp, parts);
            let start = encode_utf8("{\"timestamp\": \""@).len() as int;
            let end = start + encode_utf8(timestamp).len();
            let object = end + encode_utf8("\", \"sensor_blob\": "@).len();
            &&& all.subrange(start, end) == encode_utf8(timestamp)
            &&& all.subrange(object, object + sensor_object(parts).len()) == sensor_object(parts)
        }),
{
    let all = record_bytes(timestamp, parts);
    let start = encode_utf8("{\"timestamp\": \""@).len() as int;
    let end = start + encode_utf8(timestamp).len();
    let object = end + encode_utf8("\", \"sensor_blob\": "@).len();
    assert(all.subrange(start, end) =~= encode_utf8(timestamp));
    assert(all.subrange(object, object + sensor_object(parts).len()) =~= sensor_object(parts));
}

proof fn members_are_text(parts: Seq<Seq<Seq<u8>>>, n: int)
    requires
        n <= COLUMNS,
        forall|i: int, j: int|
            0 <= i < parts.len() && 0 <= j < parts[i].len() ==> valid_utf8(
                #[trigger] parts[i][j],
            ),
    ensures
        valid_utf8(members(parts, n)),
    decreases n,
{
    if n > 0 {
        let k = n - 1;
        members_are_text(parts, k);
        let comma = if k == 0 {
            "\""@
        } else {
            ", \""@
        };
        encode_utf8_valid_utf8(comma);
        encode_utf8_valid_utf8(column_names()[k]);
        encode_utf8_valid_utf8("\": "@);
        encode_utf8_valid_utf8(NULL_TEXT@);
        valid_utf8_concat(encode_utf8(comma), encode_utf8(column_names()[k]));
        valid_utf8_concat(
            encode_utf8(comma) + encode_utf8(column_names()[k]),
            encode_utf8("\": "@),
        );
        valid_utf8_concat(members(parts, k), column_head(k));
        assert(valid_utf8(column_value(parts, k)));
        valid_utf8_concat(members(parts, k) + column_head(k), column_value(parts, k));
    }
}

/// A record is text if every field of the readings is: a stored record can then be read back as
/// text.
pub proof fn record_of_text_is_text(timestamp: Seq<char>, parts: Seq<Seq<Seq<u8>>>)
    requires
        forall|i: int, j: int|
            0 <= i < parts.len() && 0 <= j < parts[i].len() ==> valid_utf8(
                #[trigger] parts[i][j],
            ),
    ensures
        valid_utf8(record_bytes(timestamp, parts)),
{
    members_are_text(parts, COLUMNS as int);
    let head = encode_utf8("{\"timestamp\": \""@);
    let middle = encode_utf8("\", \"sensor_blob\": "@);
    encode_utf8_valid_utf8("{\"timestamp\": \""@);
    encode_utf8_valid_utf8(timestamp);
    encode_utf8_valid_utf8("\", \"sensor_blob\": "@);
    encode_utf8_valid_utf8("{"@);
    encode_utf8_valid_utf8("}"@);
    valid_utf8_concat(encode_utf8("{"@), members(parts, COLUMNS as int));
    valid_utf8_concat(encode_utf8("{"@) + members(parts, COLUMNS as int), encode_utf8("}"@));
    valid_utf8_concat(head, encode_utf8(timestamp));
    valid_utf8_concat(head + encode_utf8(timestamp), middle);
    valid_utf8_concat(head + encode_utf8(timestamp) + middle, sensor_object(parts));
    valid_utf8_concat(
        head + encode_utf8(timestamp) + middle + sensor_object(parts),
        encode_utf8("}"@),
    );
}

/// The values of the first `n` members together.
spec fn values_len(parts: Seq<Seq<Seq<u8>>>, n: int) -> int
    decreases n,
{
    if n <= 0 {
        0
    } else {
        values_len(parts, n - 1) + column_value(parts, n - 1).len()
    }
}

/// The first `n` fields of sensor `i` together.
spec fn row_len(parts: Seq<Seq<Seq<u8>>>, i: int, n: int) -> int
    decreases n,
{
    if n <= 0 {
        0
    } else {
        row_len(parts, i, n - 1) + part(parts, i, n - 1).len()
    }
}

/// The fields of sensor `i` together.
pub open spec fn reading_len(parts: Seq<Seq<Seq<u8>>>, i: int) -> int {
    if 0 <= i < parts.len() {
        crate::fields::total_len(parts[i]) as int
    } else {
        0
    }
}

proof fn null_len()
    ensures
        null_bytes().len() == 4,
{
    reveal_strlit("null");
    is_ascii_chars_encode_utf8(NULL_TEXT@);
}

proof fn head_len(k: int)
    requires
        0 <= k < COLUMNS,
    ensures
        column_head(k).len() <= 13,
{
    reveal_strlit("lat");
    reveal_strlit("lon");
    reveal_strlit("accel_x");
    reveal_strlit("accel_y");
    reveal_strlit("accel_z");
    reveal_strlit("gyro_x");
    reveal_strlit("gyro_y");
    reveal_strlit("gyro_z");
    reveal_strlit("mag_x");
    reveal_strlit("mag_y");
    reveal_strlit("mag_z");
    reveal_strlit("force");
    reveal_strlit("linear");
    reveal_strlit("string");
    reveal_strlit("\"");
    reveal_strlit(", \"");
    reveal_strlit("\": ");
    is_ascii_chars_encode_utf8(column_names()[k]);
    is_ascii_chars_encode_utf8("\""@);
    is_ascii_chars_encode_utf8(", \""@);
    is_ascii_chars_encode_utf8("\": "@);
}

proof fn members_len(parts: Seq<Seq<Seq<u8>>>, n: int)
    requires
        0 <= n <= COLUMNS,
    ensures
        members(parts, n).len() <= 13 * n + values_len(parts, n),
    decreases n,
{
    if n > 0 {
        members_len(parts, n - 1);
        head_len(n - 1);
    }
}

proof fn row_len_bound(parts: Seq<Seq<Seq<u8>>>, i: int, n: int)
    requires
        0 <= i,
        0 <= n,
    ensures
        row_len(parts, i, n) <= reading_len(parts, i) + 4 * n,
{
    null_len();
    if i < parts.len() {
        let m = if n <= parts[i].len() {
            n
        } else {
            parts[i].len() as int
        };
        crate::fields::total_len_of_prefix(parts[i], m);
        row_len_prefix(parts, i, n, m);
    } else {
        row_len_null(parts, i, n);
    }
}

proof fn row_len_null(parts: Seq<Seq<Seq<u8>>>, i: int, n: int)
    requires
        i >= parts.len(),
        0 <= n,
    ensures
        row_len(parts, i, n) == 4 * n,
    decreases n,
{
    null_len();
    if n > 0 {
        row_len_null(parts, i, n - 1);
    }
}

proof fn row_len_prefix(parts: Seq<Seq<Seq<u8>>>, i: int, n: int, m: int)
    requires
        0 <= i < parts.len(),
        0 <= m <= n,
        m <= parts[i].len(),
        m < n ==> m == parts[i].len(),
    ensures
        row_len(parts, i, n) <= crate::fields::total_len(parts[i].take(m)) + 4 * n,
    decreases n,
{
    null_len();
    let fields = parts[i];
    if n > 0 {
        if m == n {
            row_len_prefix(parts, i, n - 1, m - 1);
            assert(fields.take(m).drop_last() == fields.take(m - 1));
        } else {
            row_len_prefix(parts, i, n - 1, m);
        }
    }
}

/// A record is not much longer than its timestamp and the readings of the three sensors that it
/// is made from.
pub proof fn record_len_bound(timestamp: Seq<char>, parts: Seq<Seq<Seq<u8>>>)
    ensures
        record_bytes(timestamp, parts).len() <= encode_utf8(timestamp).len() + reading_len(parts, 0)
            + reading_len(parts, 1) + reading_len(parts, 2) + 400,
{
    null_len();
    members_len(parts, COLUMNS as int);
    row_len_bound(parts, 0, 1);
    row_len_bound(parts, 1, 2);
    row_len_bound(parts, 2, 6);
    assert(row_len(parts, 0, 1) == part(parts, 0, 0).len()) by {
        reveal_with_fuel(row_len, 2);
    }
    assert(row_len(parts, 1, 2) == part(parts, 1, 0).len() + part(parts, 1, 1).len()) by {
        reveal_with_fuel(row_len, 3);
    }
    assert(values_len(parts, 8) == 8 + row_len(parts, 2, 6)) by {
        reveal_with_fuel(row_len, 7);
        reveal_with_fuel(values_len, 9);
    }
    assert(values_len(parts, 11) == values_len(parts, 8) + 12) by {
        reveal_with_fuel(values_len, 4);
    }
    assert(values_len(parts, 14) == values_len(parts, 11) + row_len(parts, 0, 1) + row_len(
        parts,
        1,
        2,
    )) by {
        reveal_with_fuel(values_len, 4);
    }
    reveal_strlit("{\"timestamp\": \"");
    reveal_strlit("\", \"sensor_blob\": ");
    reveal_strlit("{");
    reveal_strlit("}");
    is_ascii_chars_encode_utf8("{\"timestamp\": \""@);
    is_ascii_chars_encode_utf8("\", \"sensor_blob\": "@);
    is_ascii_chars_encode_utf8("{"@);
    is_ascii_chars_encode_utf8("}"@);
}

/// The text of a member's head, written out.
proof fn head_reads(k: int)
    requires
        0 <= k < COLUMNS,
    ensures
        column_head(0) == encode_utf8("\"lat\": "@),
        k > 0 ==> column_head(k) == encode_utf8(", \""@ + column_names()[k] + "\": "@),
{
    crate::text::encode_concat("\""@, "lat"@);
    crate::text::encode_concat("\""@ + "lat"@, "\": "@);
    reveal_strlit("\"");
    reveal_strlit("lat");
    reveal_strlit("\": ");
    reveal_strlit("\"lat\": ");
    assert("\""@ + "lat"@ + "\": "@ =~= "\"lat\": "@);
    crate::text::encode_concat(", \""@, column_names()[k]);
    crate::text::encode_concat(", \""@ + column_names()[k], "\": "@);
}

/// The heads of the members that sensors deliver, written out.
proof fn heads_read()
    ensures
        column_head(1) == encode_utf8(", \"lon\": "@),
        column_head(2) == encode_utf8(", \"accel_x\": "@),
        column_head(3) == encode_utf8(", \"accel_y\": "@),
        column_head(4) == encode_utf8(", \"accel_z\": "@),
        column_head(5) == encode_utf8(", \"gyro_x\": "@),
        column_head(6) == encode_utf8(", \"gyro_y\": "@),
        column_head(7) == encode_utf8(", \"gyro_z\": "@),
        column_head(8) == encode_utf8(", \"mag_x\": "@),
        column_head(9) == encode_utf8(", \"mag_y\": "@),
        column_head(10) == encode_utf8(", \"mag_z\": "@),
        column_head(11) == encode_utf8(", \"force\": "@),
        column_head(12) == encode_utf8(", \"linear\": "@),
        column_head(13) == encode_utf8(", \"string\": "@),
{
    reveal_strlit(", \"");
    reveal_strlit("\": ");
    head_reads(1);
    reveal_strlit("lon");
    reveal_strlit(", \"lon\": ");
    assert(", \""@ + "lon"@ + "\": "@ =~= ", \"lon\": "@);
    head_reads(2);
    reveal_strlit("accel_x");
    reveal_strlit(", \"accel_x\": ");
    assert(", \""@ + "accel_x"@ + "\": "@ =~= ", \"accel_x\": "@);
    head_reads(3);
    reveal_strlit("accel_y");
    reveal_strlit(", \"accel_y\": ");
    assert(", \""@ + "accel_y"@ + "\": "@ =~= ", \"accel_y\": "@);
    head_reads(4);
    reveal_strlit("accel_z");
    reveal_strlit(", \"accel_z\": ");
    assert(", \""@ + "accel_z"@ + "\": "@ =~= ", \"accel_z\": "@);
    head_reads(5);
    reveal_strlit("gyro_x");
    reveal_strlit(", \"gyro_x\": ");
    assert(", \""@ + "gyro_x"@ + "\": "@ =~= ", \"gyro_x\": "@);
    head_reads(6);
    reveal_strlit("gyro_y");
    reveal_strlit(", \"gyro_y\": ");
    assert(", \""@ + "gyro_y"@ + "\": "@ =~= ", \"gyro_y\": "@);
    head_reads(7);
    reveal_strlit("gyro_z");
    reveal_strlit(", \"gyro_z\": ");
    assert(", \""@ + "gyro_z"@ + "\": "@ =~= ", \"gyro_z\": "@);
    head_reads(8);
    reveal_strlit("mag_x");
    reveal_strlit(", \"mag_x\": ");
    assert(", \""@ + "mag_x"@ + "\": "@ =~= ", \"mag_x\": "@);
    head_reads(9);
    reveal_strlit("mag_y");
    reveal_strlit(", \"mag_y\": ");
    assert(", \""@ + "mag_y"@ + "\": "@ =~= ", \"mag_y\": "@);
    head_reads(10);
    reveal_strlit("mag_z");
    reveal_strlit(", \"mag_z\": ");
    assert(", \""@ + "mag_z"@ + "\": "@ =~= ", \"mag_z\": "@);
    head_reads(11);
    reveal_strlit("force");
    reveal_strlit(", \"force\": ");
    assert(", \""@ + "force"@ + "\": "@ =~= ", \"force\": "@);
    head_reads(12);
    reveal_strlit("linear");
    reveal_strlit(", \"linear\": ");
    assert(", \""@ + "linear"@ + "\": "@ =~= ", \"linear\": "@);
    head_reads(13);
    reveal_strlit("string");
    reveal_strlit(", \"string\": ");
    assert(", \""@ + "string"@ + "\": "@ =~= ", \"string\": "@);
}

proof fn encode_seven(
    a: Seq<char>,
    b: Seq<char>,
    c: Seq<char>,
    d: Seq<char>,
    e: Seq<char>,
    f: Seq<char>,
    g: Seq<char>,
)
    ensures
        encode_utf8(a + b + c + d + e + f + g) == encode_utf8(a) + encode_utf8(b) + encode_utf8(c)
            + encode_utf8(d) + encode_utf8(e) + encode_utf8(f) + encode_utf8(g),
{
    crate::text::encode_concat(a, b);
    crate::text::encode_concat(a + b, c);
    crate::text::encode_concat(a + b + c, d);
    crate::text::encode_concat(a + b + c + d, e);
    crate::text::encode_concat(a + b + c + d + e, f);
    crate::text::encode_concat(a + b + c + d + e + f, g);
}

proof fn first_nulls_read()
    ensures
        "\", \"sensor_blob\": "@ + "{"@ + "\"lat\": "@ + "null"@ + ", \"lon\": "@ + "null"@
            + ", \"accel_x\": "@
            == "\", \"sensor_blob\": {\"lat\": null, \"lon\": null, \"accel_x\": "@,
{
    reveal_strlit("\", \"sensor_blob\": ");
    reveal_strlit("{");
    reveal_strlit("null");
    reveal_strlit("\"lat\": ");
    reveal_strlit(", \"lon\": ");
    reveal_strlit(", \"accel_x\": ");
    reveal_strlit("\", \"sensor_blob\": {\"lat\": null, \"lon\": null, \"accel_x\": ");
}

proof fn last_nulls_read()
    ensures
        ", \"mag_x\": "@ + "null"@ + ", \"mag_y\": "@ + "null"@ + ", \"mag_z\": "@ + "null"@
            + ", \"force\": "@
            == ", \"mag_x\": null, \"mag_y\": null, \"mag_z\": null, \"force\": "@,
        "}"@ + "}"@ == "}}"@,
{
    reveal_strlit("null");
    reveal_strlit(", \"mag_x\": ");
    reveal_strlit(", \"mag_y\": ");
    reveal_strlit(", \"mag_z\": ");
    reveal_strlit(", \"force\": ");
    reveal_strlit(", \"mag_x\": null, \"mag_y\": null, \"mag_z\": null, \"force\": ");
    reveal_strlit("}");
    reveal_strlit("}}");
}

proof fn regroup(
    s: Seq<u8>,
    a: Seq<u8>,
    b: Seq<u8>,
    c: Seq<u8>,
    d: Seq<u8>,
    e: Seq<u8>,
    f: Seq<u8>,
    g: Seq<u8>,
)
    ensures
        s + a + b + c + d + e + f + g == s + (a + b + c + d + e + f + g),
{
}

/// What stands before the members and the members so far, and one more of them.
proof fn one_more_member(before: Seq<u8>, parts: Seq<Seq<Seq<u8>>>, k: int)
    requires
        0 <= k,
    ensures
        before + members(parts, k + 1) == before + members(parts, k) + column_head(k)
            + column_value(parts, k),
{
}

/// What stands around the members.
proof fn members_in_a_record(timestamp: Seq<char>, parts: Seq<Seq<Seq<u8>>>)
    ensures
        ({
            let before = encode_utf8("{\"timestamp\": \""@) + encode_utf8(timestamp)
                + encode_utf8("\", \"sensor_blob\": "@) + encode_utf8("{"@);
            &&& before + members(parts, 0) == before
            &&& record_bytes(timestamp, parts) == before + members(parts, 14) + encode_utf8("}}"@)
        }),
{
    let before = encode_utf8("{\"timestamp\": \""@) + encode_utf8(timestamp) + encode_utf8(
        "\", \"sensor_blob\": "@,
    ) + encode_utf8("{"@);
    crate::text::encode_concat("}"@, "}"@);
    last_nulls_read();
    assert(record_bytes(timestamp, parts) =~= before + members(parts, 14) + (encode_utf8("}"@)
        + encode_utf8("}"@)));
}

/// A record, read from its first byte to its last: each value is exactly the field of the reading
/// that it stands for, whatever that holds and however long it is, and null only where there is no
/// such field. The force comes from the first sensor, the linear position and the string from the
/// second, acceleration and rotation from the third; position and magnetic field are always null.
pub proof fn record_reads(timestamp: Seq<char>, parts: Seq<Seq<Seq<u8>>>)
    ensures
        ({
            let v = |i: int, j: int|
                if i < parts.len() && j < parts[i].len() {
                    parts[i][j]
                } else {
                    encode_utf8("null"@)
                };
            record_bytes(timestamp, parts) == encode_utf8("{\"timestamp\": \""@) + encode_utf8(timestamp) + encode_utf8(
                    "\", \"sensor_blob\": {\"lat\": null, \"lon\": null, \"accel_x\": "@,
                ) + v(2, 0)
                    + encode_utf8(", \"accel_y\": "@) + v(2, 1)
                    + encode_utf8(", \"accel_z\": "@) + v(2, 2)
                    + encode_utf8(", \"gyro_x\": "@) + v(2, 3)
                    + encode_utf8(", \"gyro_y\": "@) + v(2, 4)
                    + encode_utf8(", \"gyro_z\": "@) + v(2, 5)
                    + encode_utf8(", \"mag_x\": null, \"mag_y\": null, \"mag_z\": null, \"force\": "@)
                    + v(0, 0) + encode_utf8(", \"linear\": "@) + v(1, 0)
                    + encode_utf8(", \"string\": "@) + v(1, 1) + encode_utf8("}}"@)
        }),
{
    let v = |i: int, j: int|
        if i < parts.len() && j < parts[i].len() {
            parts[i][j]
        } else {
            encode_utf8("null"@)
        };
    let t = encode_utf8("{\"timestamp\": \""@) + encode_utf8(timestamp);
    let object = encode_utf8("\", \"sensor_blob\": "@);
    let open = encode_utf8("{"@);
    let null = encode_utf8("null"@);
    let before = t + object + open;
    heads_read();
    head_reads(0);
    members_in_a_record(timestamp, parts);
    one_more_member(before, parts, 0);
    one_more_member(before, parts, 1);
    one_more_member(before, parts, 2);
    one_more_member(before, parts, 3);
    one_more_member(before, parts, 4);
    one_more_member(before, parts, 5);
    one_more_member(before, parts, 6);
    one_more_member(before, parts, 7);
    one_more_member(before, parts, 8);
    one_more_member(before, parts, 9);
    one_more_member(before, parts, 10);
    one_more_member(before, parts, 11);
    one_more_member(before, parts, 12);
    one_more_member(before, parts, 13);
    encode_seven(
        "\", \"sensor_blob\": "@,
        "{"@,
        "\"lat\": "@,
        "null"@,
        ", \"lon\": "@,
        "null"@,
        ", \"accel_x\": "@,
    );
    first_nulls_read();
    regroup(t, object, open, column_head(0), null, column_head(1), null, column_head(2));
    encode_seven(
        ", \"mag_x\": "@,
        "null"@,
        ", \"mag_y\": "@,
        "null"@,
        ", \"mag_z\": "@,
        "null"@,
        ", \"force\": "@,
    );
    last_nulls_read();
    regroup(
        before + members(parts, 8),
        column_head(8),
        null,
        column_head(9),
        null,
        column_head(10),
        null,
        column_head(11),
    );
}

/// The fields of all sensors are what is looked at, each as it is.
pub proof fn every_field_is_viewed(parts: Seq<Vec<Bytes>>)
    ensures
        part_views(parts).len() == parts.len(),
        forall|i: int|
            0 <= i < parts.len() ==> (#[trigger] part_views(parts)[i]).len() == parts[i]@.len(),
        forall|i: int, j: int|
            0 <= i < parts.len() && 0 <= j < parts[i]@.len() ==> (#[trigger] part_views(
                parts,
            )[i][j]) == crate::packet::bytes_of(parts[i]@[j]),
{
}

/// Writes the record of one reading: its timestamp, and the sensor object with the fields of each
/// sensor's reading in their places.
pub fn record(timestamp: &str, parts: &Vec<Vec<Bytes>>) -> (r: Bytes)
    requires
        record_bytes(timestamp@, part_views(parts@)).len() <= crate::packet::buffer_limit(),
    ensures
        crate::packet::bytes_of(r) == record_bytes(timestamp@, part_views(parts@)),
        ({
            let v = |i: int, j: int|
                if i < parts@.len() && j < parts@[i]@.len() {
                    crate::packet::bytes_of(parts@[i]@[j])
                } else {
                    encode_utf8("null"@)
                };
            crate::packet::bytes_of(r) == encode_utf8("{\"timestamp\": \""@) + encode_utf8(timestamp@) + encode_utf8(
                    "\", \"sensor_blob\": {\"lat\": null, \"lon\": null, \"accel_x\": "@,
                ) + v(2, 0)
                    + encode_utf8(", \"accel_y\": "@) + v(2, 1)
                    + encode_utf8(", \"accel_z\": "@) + v(2, 2)
                    + encode_utf8(", \"gyro_x\": "@) + v(2, 3)
                    + encode_utf8(", \"gyro_y\": "@) + v(2, 4)
                    + encode_utf8(", \"gyro_z\": "@) + v(2, 5)
                    + encode_utf8(", \"mag_x\": null, \"mag_y\": null, \"mag_z\": null, \"force\": "@)
                    + v(0, 0) + encode_utf8(", \"linear\": "@) + v(1, 0)
                    + encode_utf8(", \"string\": "@) + v(1, 1) + encode_utf8("}}"@)
        }),
{
    proof {
        record_reads(timestamp@, part_views(parts@));
        every_field_is_viewed(parts@);
    }
    let ghost views = part_views(parts@);
    let mut json = BytesMut::with_capacity(1_024);
    proof {
        members_grow(views, 0, COLUMNS as int);
    }
    json.extend_from_slice("{\"timestamp\": \"".as_bytes());
    json.extend_from_slice(timestamp.as_bytes());
    json.extend_from_slice("\", \"sensor_blob\": ".as_bytes());
    let ghost head = crate::packet::buffer_of(json);
    json.extend_from_slice("{".as_bytes());
    proof {
        assert(crate::packet::buffer_of(json) == head + encode_utf8("{"@) + members(views, 0));
    }
    let mut k: usize = 0;
    while k < COLUMNS
        invariant
            k <= COLUMNS,
            views == part_views(parts@),
            crate::packet::buffer_of(json) == head + encode_utf8("{"@) + members(views, k as int),
            head.len() + sensor_object(views).len() + encode_utf8("}"@).len()
                <= crate::packet::buffer_limit(),
        decreases COLUMNS - k,
    {
        proof {
            members_grow(views, k + 1, COLUMNS as int);
        }
        let (name, source) = column(k);
        if k == 0 {
            json.extend_from_slice("\"".as_bytes());
        } else {
            json.extend_from_slice(", \"".as_bytes());
        }
        json.extend_from_slice(name.as_bytes());
        json.extend_from_slice("\": ".as_bytes());
        let value = match source {
            Some((i, j)) => get_part(parts, i, j),
            None => null_data(),
        };
        json.extend_from_slice(&value);
        proof {
            assert(crate::packet::buffer_of(json) == head + encode_utf8("{"@) + members(
                views,
                k + 1,
            ));
        }
        k = k + 1;
    }
    json.extend_from_slice("}".as_bytes());
    json.extend_from_slice("}".as_bytes());
    proof {
        assert(crate::packet::buffer_of(json) == record_bytes(timestamp@, views));
    }
    json.freeze()
}

} // verus!
