//! Pairs returned column descriptors with the cells of a row, so that a row
//! can be read by column name and decoded into a typed record.

use vstd::prelude::*;
use vstd::string::*;

use crate::error::DecodeError;
use crate::types::{
    blob_of, bool_from_sql, bool_of, bytes_from_sql, double_bits_of, f64_bits_from_sql, i16_from_sql,
    i32_from_sql, i64_from_sql, long_of, string_from_sql, text_of, Field, FieldView,
};

verus! {

/// The descriptor of one returned column.
#[derive(Debug, Clone)]
pub struct ColumnMetadata {
    pub name: Option<String>,
}

/// Whether column `i` is named `name`; a column without a name matches none.
pub open spec fn column_is(meta: Seq<ColumnMetadata>, i: int, name: Seq<char>) -> bool {
    meta[i].name matches Some(n) && n@ == name
}

/// The position of the first column named `name`.
pub open spec fn first_index(meta: Seq<ColumnMetadata>, name: Seq<char>) -> Option<int>
    decreases meta.len(),
{
    if meta.len() == 0 {
        None
    } else {
        match first_index(meta.drop_last(), name) {
            Some(i) => Some(i),
            None => if column_is(meta, meta.len() - 1, name) {
                Some(meta.len() - 1)
            } else {
                None
            },
        }
    }
}

/// A name absent from the columns is not found, and a present one is found at
/// its first occurrence.
pub proof fn lemma_first_index(meta: Seq<ColumnMetadata>, name: Seq<char>)
    ensures
        match first_index(meta, name) {
            Some(i) => 0 <= i < meta.len() && column_is(meta, i, name) && forall|j: int|
                0 <= j < i ==> !column_is(meta, j, name),
            None => forall|j: int| 0 <= j < meta.len() ==> !column_is(meta, j, name),
        },
    decreases meta.len(),
{
    if meta.len() > 0 {
        let init = meta.drop_last();
        lemma_first_index(init, name);
        assert forall|j: int| 0 <= j < init.len() implies column_is(init, j, name) == column_is(
            meta,
            j,
            name,
        ) by {}
    }
}

/// The position of the first column named `column_name`, if any.
pub fn index_of(meta: &Vec<ColumnMetadata>, column_name: &str) -> (r: Option<usize>)
    ensures
        match first_index(meta@, column_name@) {
            Some(i) => r matches Some(u) && u as int == i,
            None => r is None,
        },
        match r {
            Some(i) => i < meta@.len() && column_is(meta@, i as int, column_name@) && forall|j: int|
                0 <= j < i ==> !column_is(meta@, j, column_name@),
            None => forall|j: int| 0 <= j < meta@.len() ==> !column_is(meta@, j, column_name@),
        },
{
    let wanted = String::from_str(column_name);
    let mut i: usize = 0;
    while i < meta.len()
        invariant
            i <= meta@.len(),
            wanted@ == column_name@,
            first_index(meta@.subrange(0, i as int), column_name@) is None,
        decreases meta@.len() - i,
    {
        let ghost pre = meta@.subrange(0, i + 1);
        proof {
            assert(pre.drop_last() == meta@.subrange(0, i as int));
        }
        match &meta[i].name {
            Some(n) => {
                if *n == wanted {
                    proof {
                        assert(column_is(pre, i as int, column_name@));
                        lemma_first_index(meta@, column_name@);
                        lemma_prefix_first_index(meta@, (i + 1) as int, column_name@);
                    }
                    return Some(i);
                }
            },
            None => {},
        }
        proof {
            assert(!column_is(pre, i as int, column_name@));
        }
        i = i + 1;
    }
    proof {
        assert(meta@.subrange(0, i as int) == meta@);
        lemma_first_index(meta@, column_name@);
    }
    None
}

/// A match found in a prefix is the first match of the whole.
proof fn lemma_prefix_first_index(meta: Seq<ColumnMetadata>, k: int, name: Seq<char>)
    requires
        0 <= k <= meta.len(),
        first_index(meta.subrange(0, k), name) is Some,
    ensures
        first_index(meta, name) == first_index(meta.subrange(0, k), name),
    decreases meta.len() - k,
{
    if k < meta.len() {
        assert(meta.subrange(0, k + 1).drop_last() == meta.subrange(0, k));
        lemma_prefix_first_index(meta, k + 1, name);
    } else {
        assert(meta.subrange(0, k) == meta);
    }
}

/// A record that fails on its first `k` declared fields fails the same way
/// on all of them.
proof fn lemma_record_failure_persists(
    meta: Seq<ColumnMetadata>,
    row: Seq<Field>,
    decl: Seq<FieldDecl>,
    k: int,
)
    requires
        0 <= k <= decl.len(),
        record_spec(meta, row, decl.subrange(0, k)) is Err,
    ensures
        record_spec(meta, row, decl) == record_spec(meta, row, decl.subrange(0, k)),
    decreases decl.len() - k,
{
    if k < decl.len() {
        assert(decl.subrange(0, k + 1).drop_last() == decl.subrange(0, k));
        lemma_record_failure_persists(meta, row, decl, k + 1);
    } else {
        assert(decl.subrange(0, k) == decl);
    }
}

/// The cell at `index`, if the row has one there.
pub fn get_raw_value(fields: &Vec<Field>, index: usize) -> (r: Option<&Field>)
    ensures
        index < fields@.len() ==> r == Some(&fields@[index as int]),
        index >= fields@.len() ==> r is None,
{
    if index < fields.len() {
        Some(&fields[index])
    } else {
        None
    }
}

/// The type that a record declares for one of its fields.
#[derive(Debug, Clone, Copy, PartialEq, Eq, Structural)]
pub enum SqlType {
    Bool,
    SmallInt,
    Integer,
    BigInt,
    Float,
    Double,
    Text,
    Binary,
    Date,
    Time,
    Timestamp,
}

/// A decoded field of a record. A double is given by its IEEE-754 binary64
/// bits, and so is a single-precision float, which its reader narrows. Dates,
/// times and timestamps are given as their text.
#[derive(Debug, Clone, PartialEq)]
pub enum Value {
    Bool(bool),
    SmallInt(i16),
    Integer(i32),
    BigInt(i64),
    Double(u64),
    Text(String),
    Binary(Vec<u8>),
}

/// A decoded field with text and bytes as sequences.
pub enum ValueView {
    Bool(bool),
    SmallInt(i16),
    Integer(i32),
    BigInt(i64),
    Double(u64),
    Text(Seq<char>),
    Binary(Seq<u8>),
}

impl View for Value {
    type V = ValueView;

    open spec fn view(&self) -> ValueView {
        match self {
            Value::Bool(b) => ValueView::Bool(*b),
            Value::SmallInt(x) => ValueView::SmallInt(*x),
            Value::Integer(x) => ValueView::Integer(*x),
            Value::BigInt(x) => ValueView::BigInt(*x),
            Value::Double(bits) => ValueView::Double(*bits),
            Value::Text(s) => ValueView::Text(s@),
            Value::Binary(b) => ValueView::Binary(b@),
        }
    }
}

/// A field that a record declares: its name and its type.
#[derive(Debug, Clone)]
pub struct FieldDecl {
    pub name: String,
    pub sql_type: SqlType,
}

/// What a cell decodes to as type `t`.
pub open spec fn decode_spec(t: SqlType, v: FieldView) -> Result<ValueView, DecodeError> {
    match t {
        SqlType::Bool => Ok(ValueView::Bool(bool_of(v))),
        SqlType::SmallInt => Ok(ValueView::SmallInt(long_of(v) as i16)),
        SqlType::Integer => Ok(ValueView::Integer(long_of(v) as i32)),
        SqlType::BigInt => Ok(ValueView::BigInt(long_of(v))),
        SqlType::Float => Ok(ValueView::Double(double_bits_of(v))),
        SqlType::Double => Ok(ValueView::Double(double_bits_of(v))),
        SqlType::Text | SqlType::Date | SqlType::Time | SqlType::Timestamp => match text_of(v) {
            Ok(s) => Ok(ValueView::Text(s)),
            Err(e) => Err(e),
        },
        SqlType::Binary => match blob_of(v) {
            Ok(b) => Ok(ValueView::Binary(b)),
            Err(e) => Err(e),
        },
    }
}

/// Decodes one cell as type `t`.
pub fn decode_field(t: SqlType, f: &Field) -> (r: Result<Value, DecodeError>)
    ensures
        match decode_spec(t, f@) {
            Ok(v) => r matches Ok(x) && x@ == v,
            Err(e) => r == Err::<Value, DecodeError>(e),
        },
{
    match t {
        SqlType::Bool => match bool_from_sql(Some(f)) {
            Ok(b) => Ok(Value::Bool(b)),
            Err(e) => Err(e),
        },
        SqlType::SmallInt => match i16_from_sql(Some(f)) {
            Ok(x) => Ok(Value::SmallInt(x)),
            Err(e) => Err(e),
        },
        SqlType::Integer => match i32_from_sql(Some(f)) {
            Ok(x) => Ok(Value::Integer(x)),
            Err(e) => Err(e),
        },
        SqlType::BigInt => match i64_from_sql(Some(f)) {
            Ok(x) => Ok(Value::BigInt(x)),
            Err(e) => Err(e),
        },
        SqlType::Float | SqlType::Double => match f64_bits_from_sql(Some(f)) {
            Ok(x) => Ok(Value::Double(x)),
            Err(e) => Err(e),
        },
        SqlType::Text | SqlType::Date | SqlType::Time | SqlType::Timestamp => match string_from_sql(
            Some(f),
        ) {
            Ok(s) => Ok(Value::Text(s)),
            Err(e) => Err(e),
        },
        SqlType::Binary => match bytes_from_sql(Some(f)) {
            Ok(b) => Ok(Value::Binary(b)),
            Err(e) => Err(e),
        },
    }
}

/// The cell that a decoded value is sent as.
pub open spec fn field_of(v: ValueView) -> FieldView {
    match v {
        ValueView::Bool(b) => FieldView::Boolean(b),
        ValueView::SmallInt(x) => FieldView::Long(x as i64),
        ValueView::Integer(x) => FieldView::Long(x as i64),
        ValueView::BigInt(x) => FieldView::Long(x),
        ValueView::Double(bits) => FieldView::Double(bits),
        ValueView::Text(s) => FieldView::Text(s),
        ValueView::Binary(b) => FieldView::Blob(b),
    }
}

/// Whether `v` is a value of the declared type `t`.
pub open spec fn value_fits(t: SqlType, v: ValueView) -> bool {
    match t {
        SqlType::Bool => v is Bool,
        SqlType::SmallInt => v is SmallInt,
        SqlType::Integer => v is Integer,
        SqlType::BigInt => v is BigInt,
        SqlType::Float | SqlType::Double => v is Double,
        SqlType::Text | SqlType::Date | SqlType::Time | SqlType::Timestamp => v is Text,
        SqlType::Binary => v is Binary,
    }
}

/// The cell that a value is sent as.
pub fn encode_value(v: &Value) -> (r: Field)
    ensures
        r@ == field_of(v@),
{
    match v {
        Value::Bool(b) => Field::Boolean(*b),
        Value::SmallInt(x) => Field::Long(*x as i64),
        Value::Integer(x) => Field::Long(*x as i64),
        Value::BigInt(x) => Field::Long(*x),
        Value::Double(bits) => Field::Double(*bits),
        Value::Text(s) => Field::Text(s.clone()),
        Value::Binary(b) => Field::Blob(b.clone()),
    }
}

/// A value of a declared type, sent as a cell and decoded as that type, is the
/// value itself.
pub proof fn lemma_value_round_trip(t: SqlType, v: ValueView)
    requires
        value_fits(t, v),
    ensures
        decode_spec(t, field_of(v)) == Ok::<ValueView, DecodeError>(v),
{
}

/// What the declared field `d` reads as in a row: the cell of the first column
/// of its name, decoded as its type.
pub open spec fn field_spec(meta: Seq<ColumnMetadata>, row: Seq<Field>, d: FieldDecl) -> Result<
    ValueView,
    DecodeError,
> {
    match first_index(meta, d.name@) {
        None => Err(DecodeError::MissingColumn(d.name)),
        Some(i) => if i < row.len() {
            decode_spec(d.sql_type, row[i]@)
        } else {
            Err(DecodeError::NoValue)
        },
    }
}

/// The record that a row reads as: each declared field in order, or the
/// failure of the first that cannot be read.
pub open spec fn record_spec(meta: Seq<ColumnMetadata>, row: Seq<Field>, decl: Seq<FieldDecl>) -> Result<
    Seq<ValueView>,
    DecodeError,
>
    decreases decl.len(),
{
    if decl.len() == 0 {
        Ok(Seq::empty())
    } else {
        match record_spec(meta, row, decl.drop_last()) {
            Err(e) => Err(e),
            Ok(vs) => match field_spec(meta, row, decl.last()) {
                Err(e) => Err(e),
                Ok(v) => Ok(vs.push(v)),
            },
        }
    }
}

/// Reads a row into a record whose fields `decl` declares, by column name.
/// A declared name that no column carries is reported by name.
pub fn build_record(meta: &Vec<ColumnMetadata>, fields: &Vec<Field>, decl: &Vec<FieldDecl>) -> (r:
    Result<Vec<Value>, DecodeError>)
    ensures
        match record_spec(meta@, fields@, decl@) {
            Ok(vs) => r matches Ok(xs) && xs@.map_values(|x: Value| x@) == vs,
            Err(e) => r == Err::<Vec<Value>, DecodeError>(e),
        },
{
    let mut out: Vec<Value> = Vec::new();
    let mut k: usize = 0;
    while k < decl.len()
        invariant
            k <= decl@.len(),
            record_spec(meta@, fields@, decl@.subrange(0, k as int)) matches Ok(vs) && out@.map_values(
                |x: Value| x@,
            ) == vs,
        decreases decl@.len() - k,
    {
        proof {
            assert(decl@.subrange(0, k + 1).drop_last() == decl@.subrange(0, k as int));
            assert(decl@.subrange(0, k + 1).last() == decl@[k as int]);
        }
        let d = &decl[k];
        let v = match index_of(meta, d.name.as_str()) {
            None => {
                proof {
                    lemma_record_failure_persists(meta@, fields@, decl@, k + 1);
                }
                return Err(DecodeError::MissingColumn(d.name.clone()));
            },
            Some(i) => match get_raw_value(fields, i) {
                None => {
                    proof {
                        lemma_record_failure_persists(meta@, fields@, decl@, k + 1);
                    }
                    return Err(DecodeError::NoValue);
                },
                Some(f) => match decode_field(d.sql_type, f) {
                    Ok(v) => v,
                    Err(e) => {
                        proof {
                            lemma_record_failure_persists(meta@, fields@, decl@, k + 1);
                        }
                        return Err(e);
                    },
                },
            },
        };
        let ghost before = out@;
        out.push(v);
        proof {
            assert(out@.map_values(|x: Value| x@) == before.map_values(|x: Value| x@).push(v@));
        }
        k = k + 1;
    }
    proof {
        assert(decl@.subrange(0, k as int) == decl@);
    }
    Ok(out)
}

} // verus!
