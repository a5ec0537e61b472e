//! Columns of sample tables, held in Arrow arrays.

use std::sync::Arc;

use arrow::array::{
    ArrayRef, BooleanArray, Float32Array, Int16Array, Int32Array, Int64Array, StringArray,
    TimestampMillisecondArray, UInt16Array, UInt32Array, UInt64Array, UInt8Array,
};
use arrow::buffer::{Buffer, ScalarBuffer};
use arrow::datatypes::TimeUnit::Millisecond;
use arrow::datatypes::{DataType, Field, Schema};
use arrow::error::ArrowError;
use arrow::record_batch::RecordBatch;
use vstd::prelude::*;
use vstd::utf8::encode_utf8;

use crate::float::Single;

verus! {

/// The type of a column.
#[derive(Clone, Copy, Debug, PartialEq, Eq, Structural)]
pub enum ColumnKind {
    /// 32-bit signed integers.
    Int32,
    /// 64-bit signed integers.
    Int64,
    /// Milliseconds since the Unix epoch, in the time zone `UTC`.
    TimestampMillisUtc,
    /// 64-bit unsigned integers.
    UInt64,
    /// Texts.
    Utf8,
    /// 16-bit unsigned integers.
    UInt16,
    /// 8-bit unsigned integers.
    UInt8,
    /// 32-bit unsigned integers.
    UInt32,
    /// Single-precision numbers.
    Float32,
    /// Truth values.
    Boolean,
    /// 16-bit signed integers.
    Int16,
}

/// One value of a column.
pub enum Cell {
    /// A whole number.
    Integer(int),
    /// A single-precision number.
    Number(Single),
    /// A truth value.
    Truth(bool),
    /// A text.
    Text(Seq<char>),
    /// No value.
    Null,
}

/// A column of a schema. One of a type that is not listed has no kind.
pub struct SchemaColumn {
    /// Name of the column.
    pub name: Seq<char>,
    /// Type of the column.
    pub kind: Option<ColumnKind>,
    /// Whether the column may have missing values.
    pub nullable: bool,
}

/// A column with its values.
pub struct ColumnData {
    /// Type of the column.
    pub kind: ColumnKind,
    /// Value of each row.
    pub cells: Seq<Cell>,
}

/// `arrow::datatypes::Field`: name and type of a column.
#[verifier::external_type_specification]
#[verifier::external_body]
pub struct ExField(arrow::datatypes::Field);

/// `arrow::datatypes::Schema`: names and types of all columns.
#[verifier::external_type_specification]
#[verifier::external_body]
pub struct ExSchema(arrow::datatypes::Schema);

/// `arrow::error::ArrowError`: why Arrow refused.
#[verifier::external_type_specification]
#[verifier::external_body]
pub struct ExArrowError(arrow::error::ArrowError);

/// An Arrow array of some element type.
#[derive(Debug)]
#[verifier::external_body]
pub struct Column {
    array: ArrayRef,
}

/// `arrow::record_batch::RecordBatch`: some rows of a table.
#[derive(Debug)]
#[verifier::external_body]
pub struct TableBatch {
    /// The batch, as Arrow has it.
    pub batch: RecordBatch,
}

/// The column that a field describes.
pub uninterp spec fn field_column(field: Field) -> SchemaColumn;

/// The columns that a schema describes, in order.
pub uninterp spec fn schema_columns(schema: Schema) -> Seq<SchemaColumn>;

/// What an array holds.
pub uninterp spec fn column_data(column: Column) -> ColumnData;

/// The columns of a batch, in order.
pub uninterp spec fn batch_columns(batch: TableBatch) -> Seq<ColumnData>;

/// The columns that a batch was declared to have.
pub uninterp spec fn batch_schema(batch: TableBatch) -> Seq<SchemaColumn>;

/// The texts that references show.
pub open spec fn shown_texts(texts: Seq<Option<&str>>) -> Seq<Option<Seq<char>>> {
    Seq::new(
        texts.len(),
        |i: int|
            match texts[i] {
                Some(text) => Some(text@),
                None => None,
            },
    )
}

/// The bytes that texts take up in UTF-8.
pub open spec fn text_bytes(texts: Seq<Option<Seq<char>>>) -> nat
    decreases texts.len(),
{
    if texts.len() == 0 {
        0
    } else {
        text_bytes(texts.drop_last()) + match texts.last() {
            Some(text) => encode_utf8(text).len(),
            None => 0,
        }
    }
}

/// An optional 16-bit number as a value.
pub open spec fn uint16_cell(number: Option<u16>) -> Cell {
    match number {
        Some(number) => Cell::Integer(number as int),
        None => Cell::Null,
    }
}

/// An optional 8-bit number as a value.
pub open spec fn uint8_cell(number: Option<u8>) -> Cell {
    match number {
        Some(number) => Cell::Integer(number as int),
        None => Cell::Null,
    }
}

/// An optional text as a value.
pub open spec fn text_cell(text: Option<Seq<char>>) -> Cell {
    match text {
        Some(text) => Cell::Text(text),
        None => Cell::Null,
    }
}

/// Whether a column can stand under a declaration: the type is the declared one, and no
/// value is missing where none may be.
pub open spec fn column_fits(declared: SchemaColumn, column: ColumnData) -> bool {
    &&& declared.kind == Some(column.kind)
    &&& !declared.nullable ==> forall|i: int|
        0 <= i < column.cells.len() ==> !(#[trigger] column.cells[i] is Null)
}

/// Whether columns make a batch under a schema: there is one at least, there are as many
/// as declared, all are equally long and each fits its declaration.
pub open spec fn columns_fit(declared: Seq<SchemaColumn>, columns: Seq<ColumnData>) -> bool {
    &&& 0 < columns.len() == declared.len()
    &&& forall|i: int|
        0 <= i < columns.len() ==> (#[trigger] columns[i]).cells.len() == columns[0].cells.len()
            && column_fits(declared[i], columns[i])
}

/// What each of some arrays holds.
pub open spec fn columns_data(columns: Seq<Column>) -> Seq<ColumnData> {
    Seq::new(columns.len(), |i: int| column_data(columns[i]))
}

/// `Field::new`: a column of this name and type.
#[verifier::external_body]
pub(crate) fn new_field(name: &str, kind: ColumnKind, nullable: bool) -> (field: Field)
    ensures
        field_column(field) == (SchemaColumn { name: name@, kind: Some(kind), nullable }),
{
    let data_type = match kind {
        ColumnKind::Int32 => DataType::Int32,
        ColumnKind::Int64 => DataType::Int64,
        ColumnKind::TimestampMillisUtc => DataType::Timestamp(Millisecond, Some("UTC".into())),
        ColumnKind::UInt64 => DataType::UInt64,
        ColumnKind::Utf8 => DataType::Utf8,
        ColumnKind::UInt16 => DataType::UInt16,
        ColumnKind::UInt8 => DataType::UInt8,
        ColumnKind::UInt32 => DataType::UInt32,
        ColumnKind::Float32 => DataType::Float32,
        ColumnKind::Boolean => DataType::Boolean,
        ColumnKind::Int16 => DataType::Int16,
    };
    Field::new(name, data_type, nullable)
}

/// `Schema::new`: these columns, in this order.
#[verifier::external_body]
pub(crate) fn new_schema(fields: Vec<Field>) -> (schema: Schema)
    ensures
        schema_columns(schema) == Seq::new(fields@.len(), |i: int| field_column(fields@[i])),
{
    Schema::new(fields)
}

/// `Int32Array::from`: these numbers, none missing.
#[verifier::external_body]
pub(crate) fn int32_column(values: Vec<i32>) -> (column: Column)
    ensures
        column_data(column).kind == ColumnKind::Int32,
        column_data(column).cells == values@.map_values(|value: i32| Cell::Integer(value as int)),
{
    Column { array: Arc::new(Int32Array::from(values)) }
}

/// `Int64Array::from`: these numbers, none missing.
#[verifier::external_body]
pub(crate) fn int64_column(values: Vec<i64>) -> (column: Column)
    ensures
        column_data(column).kind == ColumnKind::Int64,
        column_data(column).cells == values@.map_values(|value: i64| Cell::Integer(value as int)),
{
    Column { array: Arc::new(Int64Array::from(values)) }
}

/// `TimestampMillisecondArray::from` in the time zone `UTC`: these times, none missing.
#[verifier::external_body]
pub(crate) fn timestamp_column(values: Vec<i64>) -> (column: Column)
    ensures
        column_data(column).kind == ColumnKind::TimestampMillisUtc,
        column_data(column).cells == values@.map_values(|value: i64| Cell::Integer(value as int)),
{
    Column { array: Arc::new(TimestampMillisecondArray::from(values).with_timezone("UTC")) }
}

/// `UInt64Array::from`: these numbers, none missing.
#[verifier::external_body]
pub(crate) fn uint64_column(values: Vec<u64>) -> (column: Column)
    ensures
        column_data(column).kind == ColumnKind::UInt64,
        column_data(column).cells == values@.map_values(|value: u64| Cell::Integer(value as int)),
{
    Column { array: Arc::new(UInt64Array::from(values)) }
}

/// `StringArray::from`: these texts, where some may be missing. Arrow counts their bytes
/// in 32 bits.
#[verifier::external_body]
pub(crate) fn text_column(values: Vec<Option<&str>>) -> (column: Column)
    requires
        text_bytes(shown_texts(values@)) <= i32::MAX,
    ensures
        column_data(column).kind == ColumnKind::Utf8,
        column_data(column).cells == shown_texts(values@).map_values(
            |text: Option<Seq<char>>| text_cell(text),
        ),
{
    Column { array: Arc::new(StringArray::from(values)) }
}

/// `UInt16Array::from`: these numbers, where some may be missing.
#[verifier::external_body]
pub(crate) fn uint16_column(values: Vec<Option<u16>>) -> (column: Column)
    ensures
        column_data(column).kind == ColumnKind::UInt16,
        column_data(column).cells == values@.map_values(
            |value: Option<u16>| uint16_cell(value),
        ),
{
    Column { array: Arc::new(UInt16Array::from(values)) }
}

/// `UInt8Array::from`: these numbers, where some may be missing.
#[verifier::external_body]
pub(crate) fn uint8_column(values: Vec<Option<u8>>) -> (column: Column)
    ensures
        column_data(column).kind == ColumnKind::UInt8,
        column_data(column).cells == values@.map_values(
            |value: Option<u8>| uint8_cell(value),
        ),
{
    Column { array: Arc::new(UInt8Array::from(values)) }
}

/// `UInt32Array::from`: these numbers, none missing.
#[verifier::external_body]
pub(crate) fn uint32_column(values: Vec<u32>) -> (column: Column)
    ensures
        column_data(column).kind == ColumnKind::UInt32,
        column_data(column).cells == values@.map_values(|value: u32| Cell::Integer(value as int)),
{
    Column { array: Arc::new(UInt32Array::from(values)) }
}

/// `Float32Array::new` over a buffer of encodings: the single-precision numbers that
/// these 32-bit encodings stand for, none missing.
#[verifier::external_body]
pub(crate) fn single_column(encodings: Vec<u32>) -> (column: Column)
    ensures
        column_data(column).kind == ColumnKind::Float32,
        column_data(column).cells == encodings@.map_values(
            |bits: u32| Cell::Number(Single { bits }),
        ),
{
    let values = ScalarBuffer::from(Buffer::from_vec(encodings));
    Column { array: Arc::new(Float32Array::new(values, None)) }
}

/// `BooleanArray::from`: these truth values, none missing.
#[verifier::external_body]
pub(crate) fn boolean_column(values: Vec<bool>) -> (column: Column)
    ensures
        column_data(column).kind == ColumnKind::Boolean,
        column_data(column).cells == values@.map_values(|value: bool| Cell::Truth(value)),
{
    Column { array: Arc::new(BooleanArray::from(values)) }
}

/// `Int16Array::from`: these numbers, none missing.
#[verifier::external_body]
pub(crate) fn int16_column(values: Vec<i16>) -> (column: Column)
    ensures
        column_data(column).kind == ColumnKind::Int16,
        column_data(column).cells == values@.map_values(|value: i16| Cell::Integer(value as int)),
{
    Column { array: Arc::new(Int16Array::from(values)) }
}

/// `RecordBatch::try_new`: a batch of these columns under this schema. It is refused
/// exactly when they do not fit it.
#[verifier::external_body]
pub(crate) fn new_record_batch(schema: Arc<Schema>, columns: Vec<Column>) -> (batch: Result<
    TableBatch,
    ArrowError,
>)
    ensures
        batch is Ok <==> columns_fit(schema_columns(*schema), columns_data(columns@)),
        batch is Ok ==> batch_columns(batch->Ok_0) == columns_data(columns@),
        batch is Ok ==> batch_schema(batch->Ok_0) == schema_columns(*schema),
{
    let arrays = columns.into_iter().map(|column| column.array).collect();
    RecordBatch::try_new(schema, arrays).map(|batch| TableBatch { batch })
}

} // verus!
