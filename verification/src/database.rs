//! What the server exchanges with the time-series database: the line-protocol
//! record written for each reading, the SQL text of a range query, and the
//! readings extracted from the database's JSON answer.
use vstd::prelude::*;

use crate::text::{decimal, push_decimal, six_zeros};

verus! {

/// One stored reading: a millisecond timestamp and the bits of its `f64` value.
#[derive(Debug, Clone, Copy, PartialEq, Eq, Structural)]
pub struct TelemetryDatum {
    pub timestamp: u64,
    /// The IEEE-754 bit pattern of the value (`f64::to_bits`).
    pub value_bits: u64,
}

/// A JSON document as the database answers it. Objects keep their members in
/// order; numbers hold the bits of their value read as an `f64`.
#[derive(Debug)]
pub enum JsonValue {
    Null,
    Bool(bool),
    Number(u64),
    Str(String),
    Array(Vec<JsonValue>),
    Object(Vec<(String, JsonValue)>),
}

/// The first member named `key` among `members`.
pub open spec fn first_member(members: Seq<(String, JsonValue)>, key: Seq<char>) -> Option<JsonValue>
    decreases members.len(),
{
    if members.len() == 0 {
        None
    } else if members[0].0@ == key {
        Some(members[0].1)
    } else {
        first_member(members.drop_first(), key)
    }
}

/// The member `key` of an object; nothing for any other kind of value.
pub open spec fn json_member(v: JsonValue, key: Seq<char>) -> Option<JsonValue> {
    match v {
        JsonValue::Object(members) => first_member(members@, key),
        _ => None,
    }
}

/// Why one row of the database answer does not give a reading.
#[derive(Debug, Clone, Copy, PartialEq, Eq, Structural)]
pub enum RowFault {
    NotAnArray,
    MissingValue,
    ValueNotANumber,
    MissingTimestamp,
    TimestampNotAString,
    TimestampUnreadable,
}

/// Why the database answer does not give the list of readings.
#[derive(Debug, Clone, Copy, PartialEq, Eq, Structural)]
pub enum DatasetError {
    /// The answer has no `dataset` array.
    DatasetNotAnArray,
    /// Row `index` of the dataset is malformed.
    BadRow { index: usize, fault: RowFault },
}

/// The milliseconds that `ms_converter::ms` reads in a text, when it reads any.
pub uninterp spec fn ms_reading(text: Seq<char>) -> Option<i64>;

/// Reads a human-written duration such as "1d" or "250" as milliseconds.
///
/// Trusted: calls `ms_converter::ms`. Its result depends on the text alone; the
/// contract names it `ms_reading` and says nothing more of it (the crate parses
/// with floating point and rounds).
#[verifier::external_body]
fn ms_milliseconds(text: &str) -> (r: Result<i64, ms_converter::Error>)
    ensures
        r is Ok <==> ms_reading(text@) is Some,
        r matches Ok(v) ==> ms_reading(text@) == Some(v),
{
    ms_converter::ms(text)
}

#[verifier::external_type_specification]
#[verifier::external_body]
pub struct ExMsError(ms_converter::Error);

/// The reading made of a value and the milliseconds read in its timestamp text,
/// when any were read.
pub open spec fn datum_of(value_bits: u64, timestamp_ms: Option<i64>) -> Result<TelemetryDatum, RowFault> {
    match timestamp_ms {
        None => Err(RowFault::TimestampUnreadable),
        Some(ms) => Ok(TelemetryDatum { timestamp: ms as u64, value_bits }),
    }
}

/// The reading in one dataset row `[value, timestamp, ...]`.
pub open spec fn row_datum(row: JsonValue) -> Result<TelemetryDatum, RowFault> {
    match row {
        JsonValue::Array(cells) => {
            if cells@.len() < 1 {
                Err(RowFault::MissingValue)
            } else if !(cells@[0] is Number) {
                Err(RowFault::ValueNotANumber)
            } else if cells@.len() < 2 {
                Err(RowFault::MissingTimestamp)
            } else if !(cells@[1] is Str) {
                Err(RowFault::TimestampNotAString)
            } else {
                datum_of(cells@[0]->Number_0, ms_reading(cells@[1]->Str_0@))
            }
        },
        _ => Err(RowFault::NotAnArray),
    }
}

/// The influx line-protocol record that stores one reading: the key is the
/// table, and the millisecond timestamp is written in nanoseconds.
pub open spec fn influx_record(table: Seq<char>, value_text: Seq<char>, timestamp: u64) -> Seq<char> {
    table + " value="@ + value_text + " "@ + decimal(timestamp as nat) + "000000\n\n"@
}

/// The SQL text that asks for the readings of `table` between two millisecond instants.
pub open spec fn range_query(table: Seq<char>, start: u64, end: u64) -> Seq<char> {
    "SELECT * FROM \""@ + table + "\" WHERE timestamp BETWEEN CAST("@ + decimal(start as nat)
        + "000000 AS TIMESTAMP) AND CAST("@ + decimal(end as nat) + "000000 AS TIMESTAMP)"@
}

/// The line-protocol record for one reading whose value the caller has already
/// rendered as text.
pub fn influx_line(full_key: &str, value_text: &str, timestamp: u64) -> (line: String)
    ensures
        line@ == influx_record(full_key@, value_text@, timestamp),
{
    let mut line = full_key.to_owned();
    line.append(" value=");
    line.append(value_text);
    line.append(" ");
    push_decimal(&mut line, timestamp);
    line.append("000000\n\n");
    line
}

/// The SQL text of a range query over the readings of `full_key`.
pub fn sql_query(full_key: &str, start: u64, end: u64) -> (q: String)
    ensures
        q@ == range_query(full_key@, start, end),
{
    let mut q = "SELECT * FROM \"".to_owned();
    q.append(full_key);
    q.append("\" WHERE timestamp BETWEEN CAST(");
    push_decimal(&mut q, start);
    q.append("000000 AS TIMESTAMP) AND CAST(");
    push_decimal(&mut q, end);
    q.append("000000 AS TIMESTAMP)");
    q
}

impl JsonValue {
    /// The member `key` when `self` is an object holding it.
    pub fn member(&self, key: &str) -> (r: Option<&JsonValue>)
        ensures
            r matches Some(v) ==> json_member(*self, key@) == Some(*v),
            r is None ==> json_member(*self, key@) is None,
    {
        match self {
            JsonValue::Object(members) => {
                let wanted = key.to_owned();
                let mut i: usize = 0;
                assert(members@.skip(0) =~= members@);
                while i < members.len()
                    invariant
                        i <= members.len(),
                        wanted@ == key@,
                        json_member(*self, key@) == first_member(members@, key@),
                        first_member(members@, key@) == first_member(members@.skip(i as int), key@),
                    decreases members.len() - i,
                {
                    let ghost rest = members@.skip(i as int);
                    assert(rest.len() > 0);
                    assert(rest[0] == members@[i as int]);
                    if members[i].0 == wanted {
                        return Some(&members[i].1);
                    }
                    assert(rest.drop_first() =~= members@.skip(i + 1));
                    i = i + 1;
                }
                assert(members@.skip(i as int).len() == 0);
                None
            },
            _ => None,
        }
    }
}

/// The reading made of a value and the milliseconds read in its timestamp text;
/// the milliseconds are taken as unsigned, as a cast does.
pub fn datum_from_parts(value_bits: u64, timestamp_ms: Option<i64>) -> (r: Result<TelemetryDatum, RowFault>)
    ensures
        r == datum_of(value_bits, timestamp_ms),
{
    match timestamp_ms {
        Some(ms) => Ok(TelemetryDatum { timestamp: ms as u64, value_bits }),
        None => Err(RowFault::TimestampUnreadable),
    }
}

/// The reading in one row of the database answer.
pub fn datum_from_row(row: &JsonValue) -> (r: Result<TelemetryDatum, RowFault>)
    ensures
        r == row_datum(*row),
{
    match row {
        JsonValue::Array(cells) => {
            if cells.len() < 1 {
                return Err(RowFault::MissingValue);
            }
            let value_bits: u64 = match &cells[0] {
                JsonValue::Number(bits) => *bits,
                _ => {
                    return Err(RowFault::ValueNotANumber);
                },
            };
            if cells.len() < 2 {
                return Err(RowFault::MissingTimestamp);
            }
            match &cells[1] {
                JsonValue::Str(text) => {
                    let timestamp_ms = match ms_milliseconds(text.as_str()) {
                        Ok(ms) => Some(ms),
                        Err(_) => None,
                    };
                    datum_from_parts(value_bits, timestamp_ms)
                },
                _ => Err(RowFault::TimestampNotAString),
            }
        },
        _ => Err(RowFault::NotAnArray),
    }
}

/// The rows of the `dataset` array of a database answer.
pub open spec fn dataset_rows(answer: JsonValue) -> Option<Seq<JsonValue>> {
    match json_member(answer, "dataset"@) {
        Some(JsonValue::Array(rows)) => Some(rows@),
        _ => None,
    }
}

/// The readings of a database answer, in the order of its rows.
pub fn dataset_from_answer(answer: &JsonValue) -> (r: Result<Vec<TelemetryDatum>, DatasetError>)
    ensures
        dataset_rows(*answer) is None <==> r == Err::<Vec<TelemetryDatum>, DatasetError>(
            DatasetError::DatasetNotAnArray,
        ),
        r matches Ok(data) ==> {
            &&& dataset_rows(*answer) is Some
            &&& data@.len() == dataset_rows(*answer)->0.len()
            &&& forall|i: int|
                0 <= i < data@.len() ==> row_datum(#[trigger] dataset_rows(*answer)->0[i]) == Ok::<
                    TelemetryDatum,
                    RowFault,
                >(data@[i])
        },
        r matches Err(DatasetError::BadRow { index, fault }) ==> {
            &&& dataset_rows(*answer) is Some
            &&& index < dataset_rows(*answer)->0.len()
            &&& row_datum(dataset_rows(*answer)->0[index as int]) == Err::<TelemetryDatum, RowFault>(
                fault,
            )
            &&& forall|i: int|
                0 <= i < index ==> #[trigger] row_datum(dataset_rows(*answer)->0[i]) is Ok
        },
{
    let rows: &Vec<JsonValue> = match answer.member("dataset") {
        Some(JsonValue::Array(rows)) => rows,
        _ => {
            return Err(DatasetError::DatasetNotAnArray);
        },
    };
    let mut data: Vec<TelemetryDatum> = Vec::new();
    let mut i: usize = 0;
    while i < rows.len()
        invariant
            i <= rows.len(),
            dataset_rows(*answer) == Some(rows@),
            data@.len() == i,
            forall|j: int| 0 <= j < i ==> row_datum(#[trigger] rows@[j]) == Ok::<TelemetryDatum, RowFault>(data@[j]),
        decreases rows.len() - i,
    {
        match datum_from_row(&rows[i]) {
            Ok(d) => {
                data.push(d);
            },
            Err(fault) => {
                return Err(DatasetError::BadRow { index: i, fault });
            },
        }
        i = i + 1;
    }
    Ok(data)
}

/// The readings of a query, or none when the query failed.
pub fn querydb_suppress_errors<E>(outcome: Result<Vec<TelemetryDatum>, E>) -> (r: Vec<TelemetryDatum>)
    ensures
        outcome matches Ok(data) ==> r@ == data@,
        outcome is Err ==> r@.len() == 0,
{
    match outcome {
        Ok(data) => data,
        Err(_) => Vec::new(),
    }
}

/// The record writes the reading's instant as the decimal number of
/// nanoseconds: the milliseconds followed by six zeros, which for a positive
/// instant is the rendering of `timestamp * 1000000`.
pub proof fn lemma_influx_timestamp_in_nanoseconds(table: Seq<char>, value_text: Seq<char>, timestamp: u64)
    requires
        timestamp > 0,
    ensures
        influx_record(table, value_text, timestamp) == table + " value="@ + value_text + " "@
            + decimal(timestamp as nat * 1000000) + "\n\n"@,
{
    reveal_strlit("000000\n\n");
    reveal_strlit("\n\n");
    crate::text::lemma_decimal_times_million(timestamp as nat);
    assert("000000\n\n"@ =~= six_zeros() + "\n\n"@);
    assert(influx_record(table, value_text, timestamp) =~= table + " value="@ + value_text + " "@
        + decimal(timestamp as nat * 1000000) + "\n\n"@);
}

/// The bounds of a range query are written in microseconds: the milliseconds
/// followed by six zeros, which for positive bounds renders `bound * 1000000`.
pub proof fn lemma_range_query_bounds(table: Seq<char>, start: u64, end: u64)
    requires
        start > 0,
        end > 0,
    ensures
        range_query(table, start, end) == "SELECT * FROM \""@ + table + "\" WHERE timestamp BETWEEN CAST("@
            + decimal(start as nat * 1000000) + " AS TIMESTAMP) AND CAST("@ + decimal(end as nat * 1000000)
            + " AS TIMESTAMP)"@,
{
    reveal_strlit("000000 AS TIMESTAMP) AND CAST(");
    reveal_strlit(" AS TIMESTAMP) AND CAST(");
    reveal_strlit("000000 AS TIMESTAMP)");
    reveal_strlit(" AS TIMESTAMP)");
    crate::text::lemma_decimal_times_million(start as nat);
    crate::text::lemma_decimal_times_million(end as nat);
    assert("000000 AS TIMESTAMP) AND CAST("@ =~= six_zeros() + " AS TIMESTAMP) AND CAST("@);
    assert("000000 AS TIMESTAMP)"@ =~= six_zeros() + " AS TIMESTAMP)"@);
    assert(range_query(table, start, end) =~= "SELECT * FROM \""@ + table
        + "\" WHERE timestamp BETWEEN CAST("@ + decimal(start as nat * 1000000) + " AS TIMESTAMP) AND CAST("@
        + decimal(end as nat * 1000000) + " AS TIMESTAMP)"@);
}

/// A reading made of a value and read milliseconds keeps the value's bits as
/// they are and takes the milliseconds as the unsigned 64-bit number they are
/// congruent to: unchanged when not negative, plus 2^64 when negative. Without
/// milliseconds there is no reading.
pub proof fn lemma_datum_of_parts(value_bits: u64, ms: i64)
    ensures
        datum_of(value_bits, Some(ms)) is Ok,
        datum_of(value_bits, Some(ms))->Ok_0.value_bits == value_bits,
        0 <= ms ==> datum_of(value_bits, Some(ms))->Ok_0.timestamp == ms,
        ms < 0 ==> datum_of(value_bits, Some(ms))->Ok_0.timestamp == ms + 0x1_0000_0000_0000_0000,
        datum_of(value_bits, None) == Err::<TelemetryDatum, RowFault>(RowFault::TimestampUnreadable),
{
    assert(ms < 0 ==> (ms as u64) == ms + 0x1_0000_0000_0000_0000) by (bit_vector);
    assert(0 <= ms ==> (ms as u64) == ms) by (bit_vector);
}

/// A well-formed row `[Number(b), Str(text), ...]` whose text reads as `ms`
/// milliseconds gives the reading with exactly the bits `b` and the timestamp
/// `ms` taken as unsigned; and every reading a row gives comes from such a row.
pub proof fn lemma_row_datum_reads_cells(row: JsonValue)
    ensures
        row_datum(row) matches Ok(d) ==> {
            &&& row is Array
            &&& row->Array_0@.len() >= 2
            &&& row->Array_0@[0] == JsonValue::Number(d.value_bits)
            &&& row->Array_0@[1] is Str
            &&& ms_reading(row->Array_0@[1]->Str_0@) matches Some(ms) && d.timestamp == ms as u64
        },
        (row is Array && row->Array_0@.len() >= 2 && row->Array_0@[0] is Number
            && row->Array_0@[1] is Str && ms_reading(row->Array_0@[1]->Str_0@) is Some) ==> row_datum(
            row,
        ) == Ok::<TelemetryDatum, RowFault>(
            TelemetryDatum {
                timestamp: ms_reading(row->Array_0@[1]->Str_0@)->0 as u64,
                value_bits: row->Array_0@[0]->Number_0,
            },
        ),
{
}

/// Which fault a row that gives no reading has: the first of its cells, in the
/// order value then timestamp, that is missing, of the wrong kind, or unreadable.
pub proof fn lemma_row_faults(row: JsonValue)
    ensures
        !(row is Array) ==> row_datum(row) == Err::<TelemetryDatum, RowFault>(RowFault::NotAnArray),
        row is Array && row->Array_0@.len() == 0 ==> row_datum(row) == Err::<TelemetryDatum, RowFault>(
            RowFault::MissingValue,
        ),
        row is Array && row->Array_0@.len() >= 1 && !(row->Array_0@[0] is Number) ==> row_datum(row)
            == Err::<TelemetryDatum, RowFault>(RowFault::ValueNotANumber),
        row is Array && row->Array_0@.len() == 1 && row->Array_0@[0] is Number ==> row_datum(row)
            == Err::<TelemetryDatum, RowFault>(RowFault::MissingTimestamp),
        row is Array && row->Array_0@.len() >= 2 && row->Array_0@[0] is Number && !(
        row->Array_0@[1] is Str) ==> row_datum(row) == Err::<TelemetryDatum, RowFault>(
            RowFault::TimestampNotAString,
        ),
        row is Array && row->Array_0@.len() >= 2 && row->Array_0@[0] is Number && row->Array_0@[1] is Str
            && ms_reading(row->Array_0@[1]->Str_0@) is None ==> row_datum(row) == Err::<
            TelemetryDatum,
            RowFault,
        >(RowFault::TimestampUnreadable),
{
}

/// The member found for `key` is the first member of the object named `key`,
/// wherever it stands; an object with no such member, and any value that is
/// not an object, have none.
pub proof fn lemma_json_member_first(obj: JsonValue, key: Seq<char>, i: int)
    requires
        obj is Object,
        0 <= i < obj->Object_0@.len(),
        obj->Object_0@[i].0@ == key,
        forall|j: int| 0 <= j < i ==> (#[trigger] obj->Object_0@[j]).0@ != key,
    ensures
        json_member(obj, key) == Some(obj->Object_0@[i].1),
{
    lemma_first_member_at(obj->Object_0@, key, i);
}

/// No member named `key` means no member found.
pub proof fn lemma_json_member_absent(obj: JsonValue, key: Seq<char>)
    requires
        !(obj is Object) || forall|j: int|
            0 <= j < obj->Object_0@.len() ==> (#[trigger] obj->Object_0@[j]).0@ != key,
    ensures
        json_member(obj, key) is None,
{
    if obj is Object {
        lemma_first_member_none(obj->Object_0@, key);
    }
}

proof fn lemma_first_member_at(members: Seq<(String, JsonValue)>, key: Seq<char>, i: int)
    requires
        0 <= i < members.len(),
        members[i].0@ == key,
        forall|j: int| 0 <= j < i ==> (#[trigger] members[j]).0@ != key,
    ensures
        first_member(members, key) == Some(members[i].1),
    decreases i,
{
    if i > 0 {
        let rest = members.drop_first();
        assert forall|j: int| 0 <= j < i - 1 implies (#[trigger] rest[j]).0@ != key by {
            assert(rest[j] == members[j + 1]);
        }
        lemma_first_member_at(rest, key, i - 1);
    }
}

proof fn lemma_first_member_none(members: Seq<(String, JsonValue)>, key: Seq<char>)
    requires
        forall|j: int| 0 <= j < members.len() ==> (#[trigger] members[j]).0@ != key,
    ensures
        first_member(members, key) is None,
    decreases members.len(),
{
    if members.len() > 0 {
        let rest = members.drop_first();
        assert forall|j: int| 0 <= j < rest.len() implies (#[trigger] rest[j]).0@ != key by {
            assert(rest[j] == members[j + 1]);
        }
        lemma_first_member_none(rest, key);
    }
}

/// The rows read from an answer are all the elements of its `dataset` array,
/// every one of them in order, and there are none when the member is missing
/// or not an array.
pub proof fn lemma_dataset_rows_are_the_dataset(answer: JsonValue)
    ensures
        json_member(answer, "dataset"@) matches Some(JsonValue::Array(rows)) ==> dataset_rows(answer)
            == Some(rows@),
        !(json_member(answer, "dataset"@) matches Some(JsonValue::Array(_))) ==> dataset_rows(
            answer,
        ) is None,
{
}

/// A decoded answer holds one reading per row of its `dataset` array, in row
/// order: the reading of row `i` is the reading its cells give.
pub proof fn lemma_dataset_one_reading_per_row(answer: JsonValue, rows: Vec<JsonValue>, data: Seq<TelemetryDatum>)
    requires
        json_member(answer, "dataset"@) == Some(JsonValue::Array(rows)),
        data.len() == dataset_rows(answer)->0.len(),
        forall|i: int| 0 <= i < data.len() ==> row_datum(#[trigger] dataset_rows(answer)->0[i]) == Ok::<TelemetryDatum, RowFault>(data[i]),
    ensures
        data.len() == rows@.len(),
        forall|i: int| 0 <= i < rows@.len() ==> row_datum(#[trigger] rows@[i]) == Ok::<TelemetryDatum, RowFault>(data[i]),
{
    lemma_dataset_rows_are_the_dataset(answer);
}

} // verus!
