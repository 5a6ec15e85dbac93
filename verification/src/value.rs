//! The values of a query result, and what JSON they become.
use vstd::prelude::*;

use crate::encoding;
use crate::json;
use crate::json::{Items, Json, JsonModel, Members};
use crate::numeral;

verus! {

/// The unit in which a time is counted.
#[derive(Debug, Clone, Copy, PartialEq, Eq, Structural)]
pub enum TimeUnit {
    Second,
    Millisecond,
    Microsecond,
    Nanosecond,
}

/// A value of a query result. Numbers with a fraction are held by the bits of their
/// binary64 form, decimals by their text, and a value of a kind that is not listed here by
/// the text that describes it.
#[derive(Debug)]
pub enum Value {
    Null,
    Boolean(bool),
    TinyInt(i8),
    SmallInt(i16),
    Int(i32),
    BigInt(i64),
    HugeInt(i128),
    UTinyInt(u8),
    USmallInt(u16),
    UInt(u32),
    UBigInt(u64),
    UHugeInt(u128),
    Float(u64),
    Double(u64),
    Decimal(String),
    Timestamp(TimeUnit, i64),
    Text(String),
    Blob(Vec<u8>),
    Geometry(Vec<u8>),
    Date32(i32),
    Time64(TimeUnit, i64),
    Interval { months: i32, days: i32, nanos: i64 },
    List(Vec<Value>),
    Enum(String),
    Struct(Vec<(String, Value)>),
    Array(Vec<Value>),
    Mapping(Vec<(Value, Value)>),
    Union(Box<Value>),
    Other(String),
}

/// Whether the bits of a binary64 number are those of a finite one: the exponent is not
/// all ones.
pub open spec fn is_finite(bits: u64) -> bool {
    (bits >> 52) & 0x7ff != 0x7ff
}

pub open spec fn unit_name(unit: TimeUnit) -> Seq<char> {
    match unit {
        TimeUnit::Second => "Second"@,
        TimeUnit::Millisecond => "Millisecond"@,
        TimeUnit::Microsecond => "Microsecond"@,
        TimeUnit::Nanosecond => "Nanosecond"@,
    }
}

impl TimeUnit {
    pub fn name(&self) -> (r: &'static str)
        ensures
            r@ == unit_name(*self),
    {
        match self {
            TimeUnit::Second => "Second",
            TimeUnit::Millisecond => "Millisecond",
            TimeUnit::Microsecond => "Microsecond",
            TimeUnit::Nanosecond => "Nanosecond",
        }
    }
}

pub open spec fn double_json(bits: u64) -> JsonModel {
    if is_finite(bits) {
        JsonModel::Double(bits)
    } else {
        JsonModel::Null
    }
}

pub open spec fn time_text(unit: TimeUnit, count: int) -> Seq<char> {
    numeral::signed_numeral(count) + " "@ + unit_name(unit)
}

/// The JSON that a value becomes. Integers of up to 64 bits are numbers; those of 128 bits
/// and decimals, which a JSON reader may round, are text. Bytes are base64 text, and a map
/// is an array of objects with a `key` and a `value`.
pub open spec fn value_json(value: Value) -> JsonModel
    decreases value,
{
    match value {
        Value::Null => JsonModel::Null,
        Value::Boolean(b) => JsonModel::Bool(b),
        Value::TinyInt(n) => JsonModel::Int(n as int),
        Value::SmallInt(n) => JsonModel::Int(n as int),
        Value::Int(n) => JsonModel::Int(n as int),
        Value::BigInt(n) => JsonModel::Int(n as int),
        Value::UTinyInt(n) => JsonModel::Int(n as int),
        Value::USmallInt(n) => JsonModel::Int(n as int),
        Value::UInt(n) => JsonModel::Int(n as int),
        Value::UBigInt(n) => JsonModel::Int(n as int),
        Value::Float(bits) => double_json(bits),
        Value::Double(bits) => double_json(bits),
        Value::HugeInt(n) => JsonModel::Text(numeral::signed_numeral(n as int)),
        Value::UHugeInt(n) => JsonModel::Text(numeral::numeral(n as nat)),
        Value::Decimal(s) => JsonModel::Text(s@),
        Value::Text(s) => JsonModel::Text(s@),
        Value::Enum(s) => JsonModel::Text(s@),
        Value::Blob(bytes) => JsonModel::Text(encoding::base64_text(bytes@)),
        Value::Geometry(bytes) => JsonModel::Text(encoding::base64_text(bytes@)),
        Value::Timestamp(unit, count) => JsonModel::Text(time_text(unit, count as int)),
        Value::Time64(unit, count) => JsonModel::Text(time_text(unit, count as int)),
        Value::Date32(days) => JsonModel::Text(
            "date32:"@ + numeral::signed_numeral(days as int),
        ),
        Value::Interval { months, days, nanos } => JsonModel::Text(
            numeral::signed_numeral(months as int) + " months "@ + numeral::signed_numeral(
                days as int,
            ) + " days "@ + numeral::signed_numeral(nanos as int) + " nanos"@,
        ),
        Value::List(items) => JsonModel::Array(values_json(items@)),
        Value::Array(items) => JsonModel::Array(values_json(items@)),
        Value::Struct(fields) => JsonModel::Object(fields_json(fields@)),
        Value::Mapping(entries) => JsonModel::Array(entries_json(entries@)),
        Value::Union(inner) => value_json(*inner),
        Value::Other(s) => JsonModel::Text(s@),
    }
}

pub open spec fn values_json(items: Seq<Value>) -> Seq<JsonModel>
    decreases items,
{
    if items.len() == 0 {
        Seq::empty()
    } else {
        values_json(items.drop_last()).push(value_json(items.last()))
    }
}

pub open spec fn fields_json(fields: Seq<(String, Value)>) -> Seq<(Seq<char>, JsonModel)>
    decreases fields,
{
    if fields.len() == 0 {
        Seq::empty()
    } else {
        json::with_member(
            fields_json(fields.drop_last()),
            fields.last().0@,
            value_json(fields.last().1),
        )
    }
}

pub open spec fn entry_json(key: JsonModel, value: JsonModel) -> JsonModel {
    JsonModel::Object(seq![("key"@, key), ("value"@, value)])
}

pub open spec fn entries_json(entries: Seq<(Value, Value)>) -> Seq<JsonModel>
    decreases entries,
{
    if entries.len() == 0 {
        Seq::empty()
    } else {
        entries_json(entries.drop_last()).push(
            entry_json(value_json(entries.last().0), value_json(entries.last().1)),
        )
    }
}

fn double_to_json(bits: u64) -> (r: Json)
    ensures
        r@ == double_json(bits),
{
    if (bits >> 52) & 0x7ff != 0x7ff {
        Json::Double(bits)
    } else {
        Json::Null
    }
}

fn time_to_json(unit: TimeUnit, count: i64) -> (r: Json)
    ensures
        r@ == JsonModel::Text(time_text(unit, count as int)),
{
    let mut r = numeral::signed_numeral_of(count as i128);
    r.append(" ");
    r.append(unit.name());
    Json::Text(r)
}

fn interval_to_json(months: i32, days: i32, nanos: i64) -> (r: Json)
    ensures
        r@ == JsonModel::Text(
            numeral::signed_numeral(months as int) + " months "@ + numeral::signed_numeral(
                days as int,
            ) + " days "@ + numeral::signed_numeral(nanos as int) + " nanos"@,
        ),
{
    let mut r = numeral::signed_numeral_of(months as i128);
    r.append(" months ");
    r.append(numeral::signed_numeral_of(days as i128).as_str());
    r.append(" days ");
    r.append(numeral::signed_numeral_of(nanos as i128).as_str());
    r.append(" nanos");
    Json::Text(r)
}

/// The JSON of a value of a query result.
pub fn value_to_json(value: &Value) -> (r: Json)
    ensures
        r@ == value_json(*value),
    decreases value,
{
    match value {
        Value::Null => Json::Null,
        Value::Boolean(b) => Json::Bool(*b),
        Value::TinyInt(n) => Json::Int(*n as i128),
        Value::SmallInt(n) => Json::Int(*n as i128),
        Value::Int(n) => Json::Int(*n as i128),
        Value::BigInt(n) => Json::Int(*n as i128),
        Value::UTinyInt(n) => Json::Int(*n as i128),
        Value::USmallInt(n) => Json::Int(*n as i128),
        Value::UInt(n) => Json::Int(*n as i128),
        Value::UBigInt(n) => Json::Int(*n as i128),
        Value::Float(bits) => double_to_json(*bits),
        Value::Double(bits) => double_to_json(*bits),
        Value::HugeInt(n) => Json::Text(numeral::signed_numeral_of(*n)),
        Value::UHugeInt(n) => Json::Text(numeral::numeral_of(*n)),
        Value::Decimal(s) => Json::Text(s.clone()),
        Value::Text(s) => Json::Text(s.clone()),
        Value::Enum(s) => Json::Text(s.clone()),
        Value::Blob(bytes) => Json::Text(encoding::encode_base64(bytes)),
        Value::Geometry(bytes) => Json::Text(encoding::encode_base64(bytes)),
        Value::Timestamp(unit, count) => time_to_json(*unit, *count),
        Value::Time64(unit, count) => time_to_json(*unit, *count),
        Value::Date32(days) => {
            let mut r = "date32:".to_owned();
            r.append(numeral::signed_numeral_of(*days as i128).as_str());
            Json::Text(r)
        },
        Value::Interval { months, days, nanos } => interval_to_json(*months, *days, *nanos),
        Value::List(items) => values_to_json(items),
        Value::Array(items) => values_to_json(items),
        Value::Struct(fields) => fields_to_json(fields),
        Value::Mapping(entries) => entries_to_json(entries),
        Value::Union(inner) => value_to_json(inner),
        Value::Other(s) => Json::Text(s.clone()),
    }
}

fn values_to_json(items: &Vec<Value>) -> (r: Json)
    ensures
        r@ == JsonModel::Array(values_json(items@)),
    decreases items,
{
    let mut r = Items::new();
    let mut i: usize = 0;
    while i < items.len()
        invariant
            i <= items@.len(),
            r@ == values_json(items@.take(i as int)),
        decreases items@.len() - i,
    {
        assert(items@.take(i + 1).drop_last() =~= items@.take(i as int));
        r.put(value_to_json(&items[i]));
        i += 1;
    }
    assert(items@.take(items@.len() as int) =~= items@);
    r.array()
}

fn fields_to_json(fields: &Vec<(String, Value)>) -> (r: Json)
    ensures
        r@ == JsonModel::Object(fields_json(fields@)),
    decreases fields,
{
    let mut r = Members::new();
    let mut i: usize = 0;
    while i < fields.len()
        invariant
            i <= fields@.len(),
            r@ == fields_json(fields@.take(i as int)),
        decreases fields@.len() - i,
    {
        assert(fields@.take(i + 1).drop_last() =~= fields@.take(i as int));
        r.set(fields[i].0.as_str(), value_to_json(&fields[i].1));
        i += 1;
    }
    assert(fields@.take(fields@.len() as int) =~= fields@);
    r.object()
}

fn entries_to_json(entries: &Vec<(Value, Value)>) -> (r: Json)
    ensures
        r@ == JsonModel::Array(entries_json(entries@)),
    decreases entries,
{
    let mut r = Items::new();
    let mut i: usize = 0;
    while i < entries.len()
        invariant
            i <= entries@.len(),
            r@ == entries_json(entries@.take(i as int)),
        decreases entries@.len() - i,
    {
        assert(entries@.take(i + 1).drop_last() =~= entries@.take(i as int));
        let mut entry = Members::new();
        entry.put("key", value_to_json(&entries[i].0));
        entry.put("value", value_to_json(&entries[i].1));
        assert(entry@ =~= seq![
            ("key"@, value_json(entries@[i as int].0)),
            ("value"@, value_json(entries@[i as int].1)),
        ]);
        r.put(entry.object());
        i += 1;
    }
    assert(entries@.take(entries@.len() as int) =~= entries@);
    r.array()
}

/// Whether a JSON reader that keeps integers of 64 bits exactly keeps every integer of a
/// document.
pub open spec fn integers_fit(json: JsonModel) -> bool
    decreases json,
{
    match json {
        JsonModel::Int(n) => i64::MIN <= n <= u64::MAX,
        JsonModel::Array(items) => items_fit(items),
        JsonModel::Object(members) => members_fit(members),
        _ => true,
    }
}

pub open spec fn items_fit(items: Seq<JsonModel>) -> bool
    decreases items,
{
    items.len() > 0 ==> items_fit(items.drop_last()) && integers_fit(items.last())
}

pub open spec fn members_fit(members: Seq<(Seq<char>, JsonModel)>) -> bool
    decreases members,
{
    members.len() > 0 ==> members_fit(members.drop_last()) && integers_fit(members.last().1)
}

/// No integer of a result is written as a number that a JSON reader could round.
pub proof fn integers_are_kept(value: Value)
    ensures
        integers_fit(value_json(value)),
    decreases value,
{
    match value {
        Value::List(items) => {
            lemma_values_fit(items@);
        },
        Value::Array(items) => {
            lemma_values_fit(items@);
        },
        Value::Struct(fields) => {
            lemma_fields_fit(fields@);
        },
        Value::Mapping(entries) => {
            lemma_entries_fit(entries@);
        },
        Value::Union(inner) => {
            integers_are_kept(*inner);
        },
        _ => {},
    }
}

proof fn lemma_values_fit(items: Seq<Value>)
    ensures
        items_fit(values_json(items)),
    decreases items,
{
    if items.len() > 0 {
        lemma_values_fit(items.drop_last());
        integers_are_kept(items.last());
        assert(values_json(items).drop_last() =~= values_json(items.drop_last()));
    }
}

/// Members fit where each of them fits.
proof fn lemma_members_fit(members: Seq<(Seq<char>, JsonModel)>)
    ensures
        members_fit(members) <==> forall|i: int|
            0 <= i < members.len() ==> integers_fit((#[trigger] members[i]).1),
    decreases members.len(),
{
    if members.len() > 0 {
        lemma_members_fit(members.drop_last());
        if members_fit(members) {
            assert forall|i: int| 0 <= i < members.len() implies integers_fit(
                (#[trigger] members[i]).1,
            ) by {
                if i < members.len() - 1 {
                    assert(members.drop_last()[i] == members[i]);
                }
            }
        } else if integers_fit(members.last().1) {
            let i = choose|i: int|
                0 <= i < members.len() - 1 && !integers_fit((#[trigger] members.drop_last()[i]).1);
            assert(!integers_fit(members[i].1));
        } else {
            assert(!integers_fit(members[members.len() - 1].1));
        }
    }
}

proof fn lemma_fields_fit(fields: Seq<(String, Value)>)
    ensures
        members_fit(fields_json(fields)),
    decreases fields,
{
    if fields.len() > 0 {
        lemma_fields_fit(fields.drop_last());
        integers_are_kept(fields.last().1);
        let before = fields_json(fields.drop_last());
        let after = fields_json(fields);
        let member = (fields.last().0@, value_json(fields.last().1));
        lemma_members_fit(before);
        lemma_members_fit(after);
        json::lemma_position(before, member.0, 0);
        assert forall|i: int| 0 <= i < after.len() implies integers_fit((#[trigger] after[i]).1) by {
            if i == json::position(before, member.0, 0) {
                assert(after[i] == member);
            } else {
                assert(after[i] == before[i]);
            }
        }
    }
}

proof fn lemma_entries_fit(entries: Seq<(Value, Value)>)
    ensures
        items_fit(entries_json(entries)),
    decreases entries,
{
    if entries.len() > 0 {
        lemma_entries_fit(entries.drop_last());
        let key = value_json(entries.last().0);
        let value = value_json(entries.last().1);
        integers_are_kept(entries.last().0);
        integers_are_kept(entries.last().1);
        let members = seq![("key"@, key), ("value"@, value)];
        assert(members.drop_last() =~= seq![("key"@, key)]);
        assert(members.drop_last().drop_last() =~= Seq::<(Seq<char>, JsonModel)>::empty());
        assert(members_fit(members.drop_last().drop_last()));
        assert(members_fit(members.drop_last()));
        assert(members_fit(members));
        assert(entry_json(key, value) == JsonModel::Object(members));
        assert(integers_fit(entry_json(key, value)));
        assert(entries_json(entries).last() == entry_json(key, value));
        assert(entries_json(entries).drop_last() =~= entries_json(entries.drop_last()));
    }
}

/// Bytes can be read back from the text that they are written as: different ones have
/// different texts.
pub proof fn bytes_are_kept(a: Vec<u8>, b: Vec<u8>)
    requires
        value_json(Value::Blob(a)) == value_json(Value::Blob(b)),
    ensures
        a@ == b@,
{
    encoding::bytes_are_kept(a@, b@);
}

/// An integer of 128 bits can be read back from the text that it is written as: two
/// different ones have different texts.
pub proof fn wide_integers_are_kept(a: i128, b: i128)
    requires
        value_json(Value::HugeInt(a)) == value_json(Value::HugeInt(b)),
    ensures
        a == b,
{
    numeral::signed_numerals_differ(a as int, b as int);
}

// ---------------------------------------------------------------------------
// Laws of the JSON of a value
// ---------------------------------------------------------------------------

/// A truth value becomes that truth value, so that two which become the same JSON are the
/// same, and nothing becomes `null`.
pub proof fn truth_values_are_kept(a: bool, b: bool, ja: Json, jb: Json, jn: Json)
    requires
        call_ensures(value_to_json, (&Value::Boolean(a),), ja),
        call_ensures(value_to_json, (&Value::Boolean(b),), jb),
        call_ensures(value_to_json, (&Value::Null,), jn),
    ensures
        ja@ == jb@ <==> a == b,
        ja@ matches JsonModel::Bool(truth) && (truth <==> a),
        jn@ is Null,
{
}

/// The number that an integer of up to 64 bits stands for.
pub open spec fn narrow_integer(value: Value) -> Option<int> {
    match value {
        Value::TinyInt(n) => Some(n as int),
        Value::SmallInt(n) => Some(n as int),
        Value::Int(n) => Some(n as int),
        Value::BigInt(n) => Some(n as int),
        Value::UTinyInt(n) => Some(n as int),
        Value::USmallInt(n) => Some(n as int),
        Value::UInt(n) => Some(n as int),
        Value::UBigInt(n) => Some(n as int),
        _ => None,
    }
}

/// Integers of up to 64 bits become the number that they are, whatever their type: two of them
/// become the same JSON exactly where they are the same number.
pub proof fn narrow_integers_are_kept(a: Value, b: Value, ja: Json, jb: Json)
    requires
        call_ensures(value_to_json, (&a,), ja),
        call_ensures(value_to_json, (&b,), jb),
        narrow_integer(a) is Some,
        narrow_integer(b) is Some,
    ensures
        ja@ == JsonModel::Int(narrow_integer(a)->0),
        ja@ == jb@ <==> narrow_integer(a) == narrow_integer(b),
{
}

/// An integer of 128 bits becomes its decimal numeral as text, signed or not.
pub proof fn wide_integers_become_numerals(a: i128, b: u128, ja: Json, jb: Json)
    requires
        call_ensures(value_to_json, (&Value::HugeInt(a),), ja),
        call_ensures(value_to_json, (&Value::UHugeInt(b),), jb),
    ensures
        a >= 0 ==> ja@ == JsonModel::Text(numeral::numeral(a as nat)),
        a < 0 ==> ja@ == JsonModel::Text(seq!['-'] + numeral::numeral((-a) as nat)),
        jb@ == JsonModel::Text(numeral::numeral(b as nat)),
        a == b ==> ja@ == jb@,
{
}

/// Text, labels, decimals and descriptions become the very text that they are.
pub proof fn text_is_kept(s: String, ja: Json, jb: Json, jc: Json, jd: Json)
    requires
        call_ensures(value_to_json, (&Value::Text(s),), ja),
        call_ensures(value_to_json, (&Value::Enum(s),), jb),
        call_ensures(value_to_json, (&Value::Decimal(s),), jc),
        call_ensures(value_to_json, (&Value::Other(s),), jd),
    ensures
        ja@ == JsonModel::Text(s@),
        jb@ == ja@,
        jc@ == ja@,
        jd@ == ja@,
{
}

/// A number with a fraction keeps every bit where it is finite, and becomes `null` where it is
/// not: its exponent, the eleven bits above the lowest fifty-two, is all ones.
pub proof fn finite_numbers_are_kept(bits: u64, ja: Json, jb: Json)
    requires
        call_ensures(value_to_json, (&Value::Double(bits),), ja),
        call_ensures(value_to_json, (&Value::Float(bits),), jb),
    ensures
        (bits / 4503599627370496) % 2048 != 2047 ==> ja@ == JsonModel::Double(bits),
        (bits / 4503599627370496) % 2048 == 2047 ==> ja@ is Null,
        jb@ == ja@,
{
    assert((bits >> 52) & 0x7ff == (bits / 4503599627370496) % 2048) by (bit_vector);
}

/// Bytes become the same text whether they are a geometry or not.
pub proof fn geometries_are_bytes(bytes: Vec<u8>, ja: Json, jb: Json)
    requires
        call_ensures(value_to_json, (&Value::Blob(bytes),), ja),
        call_ensures(value_to_json, (&Value::Geometry(bytes),), jb),
    ensures
        ja@ == jb@,
        ja@ == JsonModel::Text(encoding::base64_text(bytes@)),
{
}

/// The word of a unit of time.
pub open spec fn unit_word(unit: TimeUnit) -> Seq<char> {
    match unit {
        TimeUnit::Second => "Second"@,
        TimeUnit::Millisecond => "Millisecond"@,
        TimeUnit::Microsecond => "Microsecond"@,
        TimeUnit::Nanosecond => "Nanosecond"@,
    }
}

/// A time becomes its count and its unit, in this order; a date the count of its days, which
/// is marked as such.
pub proof fn times_tell_count_and_unit(
    unit: TimeUnit,
    count: i64,
    days: i32,
    ja: Json,
    jb: Json,
    jc: Json,
)
    requires
        call_ensures(value_to_json, (&Value::Timestamp(unit, count),), ja),
        call_ensures(value_to_json, (&Value::Time64(unit, count),), jb),
        call_ensures(value_to_json, (&Value::Date32(days),), jc),
    ensures
        ja@ matches JsonModel::Text(t) && (numeral::signed_numeral(count as int)
            + " "@).is_prefix_of(t) && t.skip(
            (numeral::signed_numeral(count as int) + " "@).len() as int,
        ) == unit_word(unit),
        jb@ == ja@,
        jc@ matches JsonModel::Text(t) && "date32:"@.is_prefix_of(t) && t.skip(
            "date32:"@.len() as int,
        ) == numeral::signed_numeral(days as int),
{
    let head = numeral::signed_numeral(count as int) + " "@;
    let t = ja@->Text_0;
    assert(t.take(head.len() as int) =~= head);
    assert(t.skip(head.len() as int) =~= unit_word(unit));
    let d = jc@->Text_0;
    assert(d.take("date32:"@.len() as int) =~= "date32:"@);
    assert(d.skip("date32:"@.len() as int) =~= numeral::signed_numeral(days as int));
}

/// An interval becomes its months, its days and its nanoseconds, in this order, each behind
/// the others and in front of its word.
pub proof fn intervals_tell_their_parts(months: i32, days: i32, nanos: i64, j: Json)
    requires
        call_ensures(value_to_json, (&(Value::Interval { months, days, nanos }),), j),
    ensures
        ({
            let first = numeral::signed_numeral(months as int) + " months "@;
            let second = numeral::signed_numeral(days as int) + " days "@;
            let third = numeral::signed_numeral(nanos as int) + " nanos"@;
            j@ matches JsonModel::Text(t) && first.is_prefix_of(t) && second.is_prefix_of(
                t.skip(first.len() as int),
            ) && t.skip((first + second).len() as int) == third
        }),
{
    let first = numeral::signed_numeral(months as int) + " months "@;
    let second = numeral::signed_numeral(days as int) + " days "@;
    let third = numeral::signed_numeral(nanos as int) + " nanos"@;
    let t = j@->Text_0;
    assert(t =~= first + second + third);
    assert(t.take(first.len() as int) =~= first);
    assert(t.skip(first.len() as int) =~= second + third);
    assert((second + third).take(second.len() as int) =~= second);
    assert(t.skip((first + second).len() as int) =~= third);
}

proof fn lemma_values_one_by_one(items: Seq<Value>, i: int)
    requires
        0 <= i < items.len(),
    ensures
        values_json(items).len() == items.len(),
        values_json(items)[i] == value_json(items[i]),
    decreases items.len(),
{
    let front = items.drop_last();
    if front.len() > 0 {
        lemma_values_one_by_one(
            front,
            if i < front.len() {
                i
            } else {
                0
            },
        );
    } else {
        assert(values_json(front).len() == 0);
    }
    if i < front.len() {
        assert(front[i] == items[i]);
    }
}

/// Values become as many documents as there are, each in its place.
pub proof fn lemma_values_in_place(items: Seq<Value>, i: int)
    ensures
        values_json(items).len() == items.len(),
        0 <= i < items.len() ==> values_json(items)[i] == value_json(items[i]),
{
    if items.len() > 0 {
        lemma_values_one_by_one(items, 0);
    }
    if 0 <= i < items.len() {
        lemma_values_one_by_one(items, i);
    }
}

/// A list becomes an array with one item for each of its own, in their order: the item at each
/// place is what the value at that place becomes on its own.
pub proof fn lists_keep_every_item_in_place(items: Vec<Value>, i: int, j: Json, k: Json, one: Json)
    requires
        call_ensures(value_to_json, (&Value::List(items),), j),
        call_ensures(value_to_json, (&Value::Array(items),), k),
        0 <= i < items@.len(),
        call_ensures(value_to_json, (&items@[i],), one),
    ensures
        j@ matches JsonModel::Array(list) && list.len() == items@.len() && list[i] == one@,
        k@ == j@,
{
    lemma_values_one_by_one(items@, i);
}

proof fn lemma_fields_one_by_one(fields: Seq<(String, Value)>, i: int)
    requires
        0 <= i < fields.len(),
        forall|a: int, b: int|
            0 <= a < b < fields.len() ==> (#[trigger] fields[a]).0@ != (#[trigger] fields[b]).0@,
    ensures
        fields_json(fields).len() == fields.len(),
        fields_json(fields)[i] == (fields[i].0@, value_json(fields[i].1)),
    decreases fields.len(),
{
    let front = fields.drop_last();
    let name = fields.last().0@;
    let before = fields_json(front);
    assert forall|a: int, b: int| 0 <= a < b < front.len() implies (#[trigger] front[a]).0@ != (
    #[trigger] front[b]).0@ by {
        assert(front[a] == fields[a] && front[b] == fields[b]);
    }
    assert forall|a: int| 0 <= a < front.len() implies before.len() == front.len() && (
    #[trigger] before[a]).0 != name by {
        lemma_fields_one_by_one(front, a);
        assert(front[a] == fields[a]);
        assert(fields[a].0@ != fields[fields.len() - 1].0@);
    }
    if front.len() > 0 {
        lemma_fields_one_by_one(front, 0);
    }
    json::lemma_position(before, name, 0);
    if i < front.len() {
        lemma_fields_one_by_one(front, i);
        assert(front[i] == fields[i]);
    }
}

/// A structure whose fields have different names becomes an object with one member for each
/// field, in their order, under its name.
pub proof fn structures_keep_every_field(
    fields: Vec<(String, Value)>,
    i: int,
    j: Json,
    one: Json,
)
    requires
        call_ensures(value_to_json, (&Value::Struct(fields),), j),
        0 <= i < fields@.len(),
        call_ensures(value_to_json, (&fields@[i].1,), one),
        forall|a: int, b: int|
            0 <= a < b < fields@.len() ==> (#[trigger] fields@[a]).0@ != (
            #[trigger] fields@[b]).0@,
    ensures
        j@ matches JsonModel::Object(members) && members.len() == fields@.len() && members[i] == (
            fields@[i].0@,
            one@,
        ),
{
    lemma_fields_one_by_one(fields@, i);
}

/// The last of the fields of one name counts, and no name has two members.
pub proof fn the_last_field_of_a_name_counts(fields: Vec<(String, Value)>, j: Json, one: Json)
    requires
        call_ensures(value_to_json, (&Value::Struct(fields),), j),
        fields@.len() > 0,
        call_ensures(value_to_json, (&fields@.last().1,), one),
    ensures
        json::has_member(j@, fields@.last().0@, one@),
        json::names_differ(j@->Object_0),
{
    let name = fields@.last().0@;
    let members = fields_json(fields@);
    lemma_field_names_differ(fields@);
    json::setting_a_member_replaces_it(fields_json(fields@.drop_last()), name, one@);
    let k = choose|k: int| 0 <= k < members.len() && members[k] == (name, one@);
    assert forall|i: int| 0 <= i < members.len() && (#[trigger] members[i]).0 == name implies
        members[i].1 == one@ by {
        assert(members[k].0 == name);
        if i < k {
            assert(members[i].0 != members[k].0);
        } else if k < i {
            assert(members[k].0 != members[i].0);
        }
    }
}

proof fn lemma_field_names_differ(fields: Seq<(String, Value)>)
    ensures
        json::names_differ(fields_json(fields)),
    decreases fields.len(),
{
    if fields.len() > 0 {
        lemma_field_names_differ(fields.drop_last());
        json::setting_a_member_replaces_it(
            fields_json(fields.drop_last()),
            fields.last().0@,
            value_json(fields.last().1),
        );
    }
}

proof fn lemma_entries_one_by_one(entries: Seq<(Value, Value)>, i: int)
    requires
        0 <= i < entries.len(),
    ensures
        entries_json(entries).len() == entries.len(),
        entries_json(entries)[i] == entry_json(
            value_json(entries[i].0),
            value_json(entries[i].1),
        ),
    decreases entries.len(),
{
    let front = entries.drop_last();
    if front.len() > 0 {
        lemma_entries_one_by_one(
            front,
            if i < front.len() {
                i
            } else {
                0
            },
        );
    } else {
        assert(entries_json(front).len() == 0);
    }
    if i < front.len() {
        assert(front[i] == entries[i]);
    }
}

/// A map becomes an array with one object for each of its entries, in their order, which gives
/// the key under `key` and the value under `value`.
pub proof fn maps_keep_every_entry(
    entries: Vec<(Value, Value)>,
    i: int,
    j: Json,
    key: Json,
    value: Json,
)
    requires
        call_ensures(value_to_json, (&Value::Mapping(entries),), j),
        0 <= i < entries@.len(),
        call_ensures(value_to_json, (&entries@[i].0,), key),
        call_ensures(value_to_json, (&entries@[i].1,), value),
    ensures
        j@ matches JsonModel::Array(list) && list.len() == entries@.len() && json::has_member(
            list[i],
            "key"@,
            key@,
        ) && json::has_member(list[i], "value"@, value@) && json::member_count(list[i]) == 2,
{
    lemma_entries_one_by_one(entries@, i);
    reveal_strlit("key");
    reveal_strlit("value");
    assert("key"@.len() == 3 && "value"@.len() == 5);
    let members = seq![("key"@, key@), ("value"@, value@)];
    assert(members[0] == ("key"@, key@));
    assert(members[1] == ("value"@, value@));
}

/// A union becomes what its value becomes.
pub proof fn unions_become_their_value(inner: Box<Value>, j: Json, one: Json)
    requires
        call_ensures(value_to_json, (&Value::Union(inner),), j),
        call_ensures(value_to_json, (&*inner,), one),
    ensures
        j@ == one@,
{
}

/// A list without items becomes an array without items, and so do a structure and a map.
pub proof fn empty_values_stay_empty(
    items: Vec<Value>,
    fields: Vec<(String, Value)>,
    entries: Vec<(Value, Value)>,
    a: Json,
    b: Json,
    c: Json,
)
    requires
        items@.len() == 0,
        fields@.len() == 0,
        entries@.len() == 0,
        call_ensures(value_to_json, (&Value::List(items),), a),
        call_ensures(value_to_json, (&Value::Struct(fields),), b),
        call_ensures(value_to_json, (&Value::Mapping(entries),), c),
    ensures
        a@ matches JsonModel::Array(list) && list.len() == 0,
        b@ matches JsonModel::Object(members) && members.len() == 0,
        c@ matches JsonModel::Array(list) && list.len() == 0,
{
    assert(values_json(items@).len() == 0);
    assert(fields_json(fields@).len() == 0);
    assert(entries_json(entries@).len() == 0);
}

/// Each unit of time has a name of its own.
pub proof fn units_have_names_of_their_own(
    a: TimeUnit,
    b: TimeUnit,
    na: &'static str,
    nb: &'static str,
)
    requires
        call_ensures(TimeUnit::name, (&a,), na),
        call_ensures(TimeUnit::name, (&b,), nb),
    ensures
        na@ == nb@ <==> a == b,
        na@ == unit_word(a),
{
    reveal_strlit("Second");
    reveal_strlit("Millisecond");
    reveal_strlit("Microsecond");
    reveal_strlit("Nanosecond");
    assert("Second"@.len() == 6 && "Millisecond"@.len() == 11 && "Microsecond"@.len() == 11
        && "Nanosecond"@.len() == 10);
    assert("Millisecond"@[2] != "Microsecond"@[2]);
}

} // verus!
