//! The type mapper: a bidirectional mapping between the native type tags and
//! the foreign runtime's type descriptors, plus the string-keyed lookup used
//! by user-facing declarations.
//!
//! Both the encode and the decode path go through the mappings defined here,
//! so the two directions cannot drift apart; `lemma_type_mapping_round_trip`
//! states that they do not.

use vstd::prelude::*;

use crate::errors::DataFusionError;

verus! {

/// The resolution of a timestamp or duration column.
#[derive(Debug, Clone, Copy, PartialEq, Eq, Structural)]
pub enum TimeUnit {
    Second,
    Millisecond,
    Microsecond,
    Nanosecond,
}

/// A native column type.
///
/// The closed set of column types the engine knows. The interchange supports
/// a subset of them; the mappers below surface `UnsupportedType` for the
/// rest rather than truncating silently. A zoned timestamp is outside the
/// supported set: the foreign descriptor carries no zone, so only unzoned
/// timestamps cross the boundary.
#[derive(Debug, Clone, Copy, PartialEq, Eq, Structural)]
pub enum TypeTag {
    Boolean,
    Int8,
    Int16,
    Int32,
    Int64,
    UInt8,
    UInt16,
    UInt32,
    UInt64,
    Float32,
    Float64,
    Utf8,
    LargeUtf8,
    Binary,
    LargeBinary,
    /// Binary values of a fixed width, in bytes.
    FixedSizeBinary(u32),
    Timestamp(TimeUnit),
    /// Days since the epoch, 32 bits.
    Date32,
    /// Milliseconds since the epoch, 64 bits.
    Date64,
    Duration(TimeUnit),
    /// Nested list type: declared for completeness, outside the supported
    /// set of the interchange, which never reads the element type.
    List,
    /// Nested struct type: declared for completeness, outside the supported
    /// set of the interchange, which never reads the field layout.
    Struct,
}

/// A foreign type descriptor: the constructor of the foreign runtime's type
/// object, by name, with its arguments.
#[derive(Debug, Clone, PartialEq, Eq)]
pub struct ForeignTypeCall {
    /// The name of the foreign constructor ("int32", "bool_", "timestamp", ...).
    pub function: String,
    /// The byte width handed to the constructor, for fixed-width binary.
    pub byte_width: Option<u32>,
    /// The unit handed to the constructor, for timestamps and durations.
    pub unit: Option<TimeUnit>,
}

/// The mathematical value of a [`ForeignTypeCall`].
#[verifier::ext_equal]
pub ghost struct ForeignTypeCallModel {
    pub function: Seq<char>,
    pub byte_width: Option<u32>,
    pub unit: Option<TimeUnit>,
}

impl View for ForeignTypeCall {
    type V = ForeignTypeCallModel;

    open spec fn view(&self) -> ForeignTypeCallModel {
        ForeignTypeCallModel {
            function: self.function@,
            byte_width: self.byte_width,
            unit: self.unit,
        }
    }
}

/// Relies on `String::push`: appends the given character to the end of the
/// string, per its std documentation.
pub assume_specification[ String::push ](s: &mut String, c: char)
    ensures
        final(s)@ == old(s)@ + seq![c],
;

/// Relies on `String::push_str`: appends the given string slice onto the
/// end of the string, per its std documentation.
pub assume_specification[ String::push_str ](s: &mut String, other: &str)
    ensures
        final(s)@ == old(s)@ + other@,
;

/// The character of one decimal digit.
pub open spec fn spec_digit(d: nat) -> char {
    if d == 0 {
        '0'
    } else if d == 1 {
        '1'
    } else if d == 2 {
        '2'
    } else if d == 3 {
        '3'
    } else if d == 4 {
        '4'
    } else if d == 5 {
        '5'
    } else if d == 6 {
        '6'
    } else if d == 7 {
        '7'
    } else if d == 8 {
        '8'
    } else {
        '9'
    }
}

/// The decimal digits of `n`, most significant first.
pub open spec fn spec_digits(n: nat) -> Seq<char>
    decreases n,
{
    if n < 10 {
        seq![spec_digit(n)]
    } else {
        spec_digits(n / 10) + seq![spec_digit(n % 10)]
    }
}

/// The decimal rendering of an integer, with a leading minus sign when it
/// is negative.
pub open spec fn spec_int_string(v: int) -> Seq<char> {
    if v < 0 {
        seq!['-'] + spec_digits((-v) as nat)
    } else {
        spec_digits(v as nat)
    }
}

/// The message that rejects a foreign numeric type identifier, naming it.
pub open spec fn spec_id_message(id: int) -> Seq<char> {
    "the type identifier "@ + spec_int_string(id) + " is not valid"@
}

/// Appends one decimal digit.
fn push_digit(d: u32, out: &mut String)
    requires
        d < 10,
    ensures
        final(out)@ == old(out)@ + seq![spec_digit(d as nat)],
{
    let c: char = match d {
        0 => '0',
        1 => '1',
        2 => '2',
        3 => '3',
        4 => '4',
        5 => '5',
        6 => '6',
        7 => '7',
        8 => '8',
        _ => '9',
    };
    out.push(c);
}

/// Appends the decimal digits of `n`, most significant first.
fn push_digits(n: u32, out: &mut String)
    ensures
        final(out)@ == old(out)@ + spec_digits(n as nat),
    decreases n,
{
    if n >= 10 {
        proof {
            vstd::arithmetic::div_mod::lemma_fundamental_div_mod(n as int, 10);
            vstd::arithmetic::div_mod::lemma_mod_bound(n as int, 10);
        }
        let ghost before = out@;
        push_digits(n / 10, out);
        push_digit(n % 10, out);
        proof {
            assert(out@ =~= before + spec_digits(n as nat));
        }
    } else {
        push_digit(n, out);
    }
}

/// Renders the message that rejects a foreign numeric type identifier.
fn id_message(id: i32) -> (r: String)
    ensures
        r@ == spec_id_message(id as int),
{
    let mut out: String = "the type identifier ".to_owned();
    if id < 0 {
        out.push('-');
        let magnitude: u32 = (-(id as i64)) as u32;
        push_digits(magnitude, &mut out);
    } else {
        push_digits(id as u32, &mut out);
    }
    out.push_str(" is not valid");
    proof {
        assert(out@ =~= spec_id_message(id as int));
    }
    out
}

/// The tag a user-facing type name declares, `None` outside the supported
/// set. This is the single source of truth for `data_type`.
pub open spec fn tag_of_name(s: Seq<char>) -> Option<TypeTag> {
    if s == "bool"@ {
        Some(TypeTag::Boolean)
    } else if s == "int32"@ {
        Some(TypeTag::Int32)
    } else if s == "int64"@ {
        Some(TypeTag::Int64)
    } else if s == "int"@ {
        Some(TypeTag::Int64)
    } else if s == "float32"@ {
        Some(TypeTag::Float32)
    } else if s == "float64"@ {
        Some(TypeTag::Float64)
    } else if s == "float"@ {
        Some(TypeTag::Float64)
    } else {
        None
    }
}

/// The tag behind a foreign numeric type identifier, `None` where the
/// identifier is unknown or does not determine the type by itself (a
/// parameterized type such as a timestamp needs more than its identifier).
pub open spec fn tag_of_id(id: int) -> Option<TypeTag> {
    if id == 1 {
        Some(TypeTag::Boolean)
    } else if id == 2 {
        Some(TypeTag::UInt8)
    } else if id == 3 {
        Some(TypeTag::Int8)
    } else if id == 4 {
        Some(TypeTag::UInt16)
    } else if id == 5 {
        Some(TypeTag::Int16)
    } else if id == 6 {
        Some(TypeTag::UInt32)
    } else if id == 7 {
        Some(TypeTag::Int32)
    } else if id == 8 {
        Some(TypeTag::UInt64)
    } else if id == 9 {
        Some(TypeTag::Int64)
    } else if id == 11 {
        Some(TypeTag::Float32)
    } else if id == 12 {
        Some(TypeTag::Float64)
    } else if id == 20 {
        Some(TypeTag::Binary)
    } else if id == 21 {
        Some(TypeTag::Utf8)
    } else if id == 22 {
        Some(TypeTag::LargeBinary)
    } else if id == 23 {
        Some(TypeTag::LargeUtf8)
    } else {
        None
    }
}

/// The foreign constructor for a tag, `None` outside the supported set.
/// This is the single source of truth for the encode direction.
pub open spec fn call_of_tag(t: TypeTag) -> Option<ForeignTypeCallModel> {
    match t {
        TypeTag::Boolean => Some(simple_call("bool_"@)),
        TypeTag::Int8 => Some(simple_call("int8"@)),
        TypeTag::Int16 => Some(simple_call("int16"@)),
        TypeTag::Int32 => Some(simple_call("int32"@)),
        TypeTag::Int64 => Some(simple_call("int64"@)),
        TypeTag::UInt8 => Some(simple_call("uint8"@)),
        TypeTag::UInt16 => Some(simple_call("uint16"@)),
        TypeTag::UInt32 => Some(simple_call("uint32"@)),
        TypeTag::UInt64 => Some(simple_call("uint64"@)),
        TypeTag::Float32 => Some(simple_call("float32"@)),
        TypeTag::Float64 => Some(simple_call("float64"@)),
        TypeTag::Utf8 => Some(simple_call("utf8"@)),
        TypeTag::LargeUtf8 => Some(simple_call("large_utf8"@)),
        TypeTag::Binary => Some(simple_call("binary"@)),
        TypeTag::LargeBinary => Some(simple_call("large_binary"@)),
        TypeTag::FixedSizeBinary(w) => Some(
            ForeignTypeCallModel { function: "binary"@, byte_width: Some(w), unit: None },
        ),
        TypeTag::Timestamp(u) => Some(
            ForeignTypeCallModel { function: "timestamp"@, byte_width: None, unit: Some(u) },
        ),
        TypeTag::Date32 => Some(simple_call("date32"@)),
        TypeTag::Date64 => Some(simple_call("date64"@)),
        TypeTag::Duration(u) => Some(
            ForeignTypeCallModel { function: "duration"@, byte_width: None, unit: Some(u) },
        ),
        TypeTag::List => None,
        TypeTag::Struct => None,
    }
}

/// A constructor call without arguments.
pub open spec fn simple_call(name: Seq<char>) -> ForeignTypeCallModel {
    ForeignTypeCallModel { function: name, byte_width: None, unit: None }
}

/// The tag a foreign type descriptor denotes, `None` where its constructor
/// is unknown or its arguments are incomplete. This is the single source of
/// truth for the decode direction.
pub open spec fn tag_of_call(c: ForeignTypeCallModel) -> Option<TypeTag> {
    if c.function == "bool_"@ {
        Some(TypeTag::Boolean)
    } else if c.function == "int8"@ {
        Some(TypeTag::Int8)
    } else if c.function == "int16"@ {
        Some(TypeTag::Int16)
    } else if c.function == "int32"@ {
        Some(TypeTag::Int32)
    } else if c.function == "int64"@ {
        Some(TypeTag::Int64)
    } else if c.function == "uint8"@ {
        Some(TypeTag::UInt8)
    } else if c.function == "uint16"@ {
        Some(TypeTag::UInt16)
    } else if c.function == "uint32"@ {
        Some(TypeTag::UInt32)
    } else if c.function == "uint64"@ {
        Some(TypeTag::UInt64)
    } else if c.function == "float32"@ {
        Some(TypeTag::Float32)
    } else if c.function == "float64"@ {
        Some(TypeTag::Float64)
    } else if c.function == "utf8"@ {
        Some(TypeTag::Utf8)
    } else if c.function == "large_utf8"@ {
        Some(TypeTag::LargeUtf8)
    } else if c.function == "binary"@ {
        match c.byte_width {
            Some(w) => Some(TypeTag::FixedSizeBinary(w)),
            None => Some(TypeTag::Binary),
        }
    } else if c.function == "large_binary"@ {
        Some(TypeTag::LargeBinary)
    } else if c.function == "date32"@ {
        Some(TypeTag::Date32)
    } else if c.function == "date64"@ {
        Some(TypeTag::Date64)
    } else if c.function == "timestamp"@ {
        match c.unit {
            Some(u) => Some(TypeTag::Timestamp(u)),
            None => None,
        }
    } else if c.function == "duration"@ {
        match c.unit {
            Some(u) => Some(TypeTag::Duration(u)),
            None => None,
        }
    } else {
        None
    }
}

/// The user-facing name of a tag, used in error messages.
pub open spec fn spec_tag_name(t: TypeTag) -> Seq<char> {
    match t {
        TypeTag::Boolean => "bool"@,
        TypeTag::Int8 => "int8"@,
        TypeTag::Int16 => "int16"@,
        TypeTag::Int32 => "int32"@,
        TypeTag::Int64 => "int64"@,
        TypeTag::UInt8 => "uint8"@,
        TypeTag::UInt16 => "uint16"@,
        TypeTag::UInt32 => "uint32"@,
        TypeTag::UInt64 => "uint64"@,
        TypeTag::Float32 => "float32"@,
        TypeTag::Float64 => "float64"@,
        TypeTag::Utf8 => "utf8"@,
        TypeTag::LargeUtf8 => "large_utf8"@,
        TypeTag::Binary => "binary"@,
        TypeTag::LargeBinary => "large_binary"@,
        TypeTag::FixedSizeBinary(_) => "fixed_size_binary"@,
        TypeTag::Timestamp(_) => "timestamp"@,
        TypeTag::Date32 => "date32"@,
        TypeTag::Date64 => "date64"@,
        TypeTag::Duration(_) => "duration"@,
        TypeTag::List => "list"@,
        TypeTag::Struct => "struct"@,
    }
}

/// Maps a user-facing type name to its tag, exactly for the names in the
/// supported set; any other name is rejected and echoed in the error.
pub fn data_type(string: &str) -> (r: Result<TypeTag, DataFusionError>)
    ensures
        match r {
            Ok(t) => tag_of_name(string@) == Some(t),
            Err(e) => tag_of_name(string@) is None && (e matches DataFusionError::UnsupportedType(
                m,
            ) && m@ == string@),
        },
{
    let owned: String = string.to_owned();
    if owned == "bool".to_owned() {
        Ok(TypeTag::Boolean)
    } else if owned == "int32".to_owned() {
        Ok(TypeTag::Int32)
    } else if owned == "int64".to_owned() {
        Ok(TypeTag::Int64)
    } else if owned == "int".to_owned() {
        Ok(TypeTag::Int64)
    } else if owned == "float32".to_owned() {
        Ok(TypeTag::Float32)
    } else if owned == "float64".to_owned() {
        Ok(TypeTag::Float64)
    } else if owned == "float".to_owned() {
        Ok(TypeTag::Float64)
    } else {
        Err(DataFusionError::UnsupportedType(owned))
    }
}

/// Maps a foreign numeric type identifier to its tag; an identifier that is
/// unknown, or that does not determine the type by itself, is rejected.
pub fn data_type_id(id: i32) -> (r: Result<TypeTag, DataFusionError>)
    ensures
        match r {
            Ok(t) => tag_of_id(id as int) == Some(t),
            Err(e) => tag_of_id(id as int) is None && (e
                matches DataFusionError::UnsupportedType(m) && m@ == spec_id_message(id as int)),
        },
{
    match id {
        1 => Ok(TypeTag::Boolean),
        2 => Ok(TypeTag::UInt8),
        3 => Ok(TypeTag::Int8),
        4 => Ok(TypeTag::UInt16),
        5 => Ok(TypeTag::Int16),
        6 => Ok(TypeTag::UInt32),
        7 => Ok(TypeTag::Int32),
        8 => Ok(TypeTag::UInt64),
        9 => Ok(TypeTag::Int64),
        11 => Ok(TypeTag::Float32),
        12 => Ok(TypeTag::Float64),
        20 => Ok(TypeTag::Binary),
        21 => Ok(TypeTag::Utf8),
        22 => Ok(TypeTag::LargeBinary),
        23 => Ok(TypeTag::LargeUtf8),
        _ => Err(DataFusionError::UnsupportedType(id_message(id))),
    }
}

/// Maps a tag to the foreign constructor that builds its type object, the
/// encode direction of the mapper; a tag outside the supported set is
/// rejected and named in the error.
pub fn type_to_type(data_type: &TypeTag) -> (r: Result<ForeignTypeCall, DataFusionError>)
    ensures
        match r {
            Ok(c) => call_of_tag(*data_type) == Some(c@),
            Err(e) => call_of_tag(*data_type) is None && (e
                matches DataFusionError::UnsupportedType(m) && m@ == spec_tag_name(*data_type)),
        },
{
    match data_type {
        TypeTag::Boolean => Ok(no_arg_call("bool_")),
        TypeTag::Int8 => Ok(no_arg_call("int8")),
        TypeTag::Int16 => Ok(no_arg_call("int16")),
        TypeTag::Int32 => Ok(no_arg_call("int32")),
        TypeTag::Int64 => Ok(no_arg_call("int64")),
        TypeTag::UInt8 => Ok(no_arg_call("uint8")),
        TypeTag::UInt16 => Ok(no_arg_call("uint16")),
        TypeTag::UInt32 => Ok(no_arg_call("uint32")),
        TypeTag::UInt64 => Ok(no_arg_call("uint64")),
        TypeTag::Float32 => Ok(no_arg_call("float32")),
        TypeTag::Float64 => Ok(no_arg_call("float64")),
        TypeTag::Utf8 => Ok(no_arg_call("utf8")),
        TypeTag::LargeUtf8 => Ok(no_arg_call("large_utf8")),
        TypeTag::Binary => Ok(no_arg_call("binary")),
        TypeTag::LargeBinary => Ok(no_arg_call("large_binary")),
        TypeTag::FixedSizeBinary(w) => Ok(
            ForeignTypeCall {
                function: "binary".to_owned(),
                byte_width: Some(*w),
                unit: None,
            },
        ),
        TypeTag::Timestamp(u) => Ok(
            ForeignTypeCall {
                function: "timestamp".to_owned(),
                byte_width: None,
                unit: Some(*u),
            },
        ),
        TypeTag::Date32 => Ok(no_arg_call("date32")),
        TypeTag::Date64 => Ok(no_arg_call("date64")),
        TypeTag::Duration(u) => Ok(
            ForeignTypeCall {
                function: "duration".to_owned(),
                byte_width: None,
                unit: Some(*u),
            },
        ),
        TypeTag::List => Err(DataFusionError::UnsupportedType("list".to_owned())),
        TypeTag::Struct => Err(DataFusionError::UnsupportedType("struct".to_owned())),
    }
}

/// Builds a constructor call without arguments.
fn no_arg_call(name: &str) -> (r: ForeignTypeCall)
    ensures
        r@ == simple_call(name@),
{
    ForeignTypeCall { function: name.to_owned(), byte_width: None, unit: None }
}

/// Maps a foreign type descriptor back to its tag, the decode direction of
/// the mapper; an unknown constructor is rejected and echoed in the error,
/// and a timestamp or duration descriptor without its unit is incomplete
/// and rejected as well.
pub fn from_foreign(call: &ForeignTypeCall) -> (r: Result<TypeTag, DataFusionError>)
    ensures
        match r {
            Ok(t) => tag_of_call(call@) == Some(t),
            Err(e) => tag_of_call(call@) is None && e matches DataFusionError::UnsupportedType(_),
        },
{
    let f: &String = &call.function;
    if *f == "bool_".to_owned() {
        Ok(TypeTag::Boolean)
    } else if *f == "int8".to_owned() {
        Ok(TypeTag::Int8)
    } else if *f == "int16".to_owned() {
        Ok(TypeTag::Int16)
    } else if *f == "int32".to_owned() {
        Ok(TypeTag::Int32)
    } else if *f == "int64".to_owned() {
        Ok(TypeTag::Int64)
    } else if *f == "uint8".to_owned() {
        Ok(TypeTag::UInt8)
    } else if *f == "uint16".to_owned() {
        Ok(TypeTag::UInt16)
    } else if *f == "uint32".to_owned() {
        Ok(TypeTag::UInt32)
    } else if *f == "uint64".to_owned() {
        Ok(TypeTag::UInt64)
    } else if *f == "float32".to_owned() {
        Ok(TypeTag::Float32)
    } else if *f == "float64".to_owned() {
        Ok(TypeTag::Float64)
    } else if *f == "utf8".to_owned() {
        Ok(TypeTag::Utf8)
    } else if *f == "large_utf8".to_owned() {
        Ok(TypeTag::LargeUtf8)
    } else if *f == "binary".to_owned() {
        match call.byte_width {
            Some(w) => Ok(TypeTag::FixedSizeBinary(w)),
            None => Ok(TypeTag::Binary),
        }
    } else if *f == "large_binary".to_owned() {
        Ok(TypeTag::LargeBinary)
    } else if *f == "date32".to_owned() {
        Ok(TypeTag::Date32)
    } else if *f == "date64".to_owned() {
        Ok(TypeTag::Date64)
    } else if *f == "timestamp".to_owned() {
        match call.unit {
            Some(u) => Ok(TypeTag::Timestamp(u)),
            None => Err(
                DataFusionError::UnsupportedType("timestamp without a unit".to_owned()),
            ),
        }
    } else if *f == "duration".to_owned() {
        match call.unit {
            Some(u) => Ok(TypeTag::Duration(u)),
            None => Err(
                DataFusionError::UnsupportedType("duration without a unit".to_owned()),
            ),
        }
    } else {
        Err(DataFusionError::UnsupportedType(f.clone()))
    }
}

/// Renders the user-facing name of a tag, for error messages.
pub fn tag_name(t: &TypeTag) -> (r: String)
    ensures
        r@ == spec_tag_name(*t),
{
    match t {
        TypeTag::Boolean => "bool".to_owned(),
        TypeTag::Int8 => "int8".to_owned(),
        TypeTag::Int16 => "int16".to_owned(),
        TypeTag::Int32 => "int32".to_owned(),
        TypeTag::Int64 => "int64".to_owned(),
        TypeTag::UInt8 => "uint8".to_owned(),
        TypeTag::UInt16 => "uint16".to_owned(),
        TypeTag::UInt32 => "uint32".to_owned(),
        TypeTag::UInt64 => "uint64".to_owned(),
        TypeTag::Float32 => "float32".to_owned(),
        TypeTag::Float64 => "float64".to_owned(),
        TypeTag::Utf8 => "utf8".to_owned(),
        TypeTag::LargeUtf8 => "large_utf8".to_owned(),
        TypeTag::Binary => "binary".to_owned(),
        TypeTag::LargeBinary => "large_binary".to_owned(),
        TypeTag::FixedSizeBinary(_) => "fixed_size_binary".to_owned(),
        TypeTag::Timestamp(_) => "timestamp".to_owned(),
        TypeTag::Date32 => "date32".to_owned(),
        TypeTag::Date64 => "date64".to_owned(),
        TypeTag::Duration(_) => "duration".to_owned(),
        TypeTag::List => "list".to_owned(),
        TypeTag::Struct => "struct".to_owned(),
    }
}

/// The name the foreign runtime gives a time unit.
pub open spec fn spec_unit_name(u: TimeUnit) -> Seq<char> {
    match u {
        TimeUnit::Second => "s"@,
        TimeUnit::Millisecond => "ms"@,
        TimeUnit::Microsecond => "us"@,
        TimeUnit::Nanosecond => "ns"@,
    }
}

/// Renders a time unit as the foreign runtime's unit argument.
pub fn unit_name(u: TimeUnit) -> (r: String)
    ensures
        r@ == spec_unit_name(u),
{
    match u {
        TimeUnit::Second => "s".to_owned(),
        TimeUnit::Millisecond => "ms".to_owned(),
        TimeUnit::Microsecond => "us".to_owned(),
        TimeUnit::Nanosecond => "ns".to_owned(),
    }
}

/// Law: the two directions of the type mapper cannot drift apart. Decoding
/// the descriptor that a tag encodes to gives that tag back, for every tag
/// in the supported set.
pub proof fn lemma_type_mapping_round_trip(t: TypeTag)
    requires
        call_of_tag(t) is Some,
    ensures
        tag_of_call(call_of_tag(t)->Some_0) == Some(t),
{
    reveal_strlit("bool_");
    reveal_strlit("int8");
    reveal_strlit("int16");
    reveal_strlit("int32");
    reveal_strlit("int64");
    reveal_strlit("uint8");
    reveal_strlit("uint16");
    reveal_strlit("uint32");
    reveal_strlit("uint64");
    reveal_strlit("float32");
    reveal_strlit("float64");
    reveal_strlit("utf8");
    reveal_strlit("large_utf8");
    reveal_strlit("binary");
    reveal_strlit("large_binary");
    reveal_strlit("date32");
    reveal_strlit("date64");
    reveal_strlit("timestamp");
    reveal_strlit("duration");
    assert("bool_"@.len() == 5);
    assert("int8"@.len() == 4);
    assert("int16"@.len() == 5);
    assert("int32"@.len() == 5);
    assert("int64"@.len() == 5);
    assert("uint8"@.len() == 5);
    assert("uint16"@.len() == 6);
    assert("uint32"@.len() == 6);
    assert("uint64"@.len() == 6);
    assert("float32"@.len() == 7);
    assert("float64"@.len() == 7);
    assert("utf8"@.len() == 4);
    assert("large_utf8"@.len() == 10);
    assert("binary"@.len() == 6);
    assert("large_binary"@.len() == 12);
    assert("date32"@.len() == 6);
    assert("date64"@.len() == 6);
    assert("timestamp"@.len() == 9);
    assert("duration"@.len() == 8);
    assert("int16"@ != "bool_"@) by {
        assert("int16"@[0] != "bool_"@[0]);
    }
    assert("int32"@ != "bool_"@) by {
        assert("int32"@[0] != "bool_"@[0]);
    }
    assert("int64"@ != "bool_"@) by {
        assert("int64"@[0] != "bool_"@[0]);
    }
    assert("uint8"@ != "bool_"@) by {
        assert("uint8"@[0] != "bool_"@[0]);
    }
    assert("utf8"@ != "int8"@) by {
        assert("utf8"@[0] != "int8"@[0]);
    }
    assert("int32"@ != "int16"@) by {
        assert("int32"@[3] != "int16"@[3]);
    }
    assert("int64"@ != "int16"@) by {
        assert("int64"@[3] != "int16"@[3]);
    }
    assert("uint8"@ != "int16"@) by {
        assert("uint8"@[0] != "int16"@[0]);
    }
    assert("int64"@ != "int32"@) by {
        assert("int64"@[3] != "int32"@[3]);
    }
    assert("uint8"@ != "int32"@) by {
        assert("uint8"@[0] != "int32"@[0]);
    }
    assert("uint8"@ != "int64"@) by {
        assert("uint8"@[0] != "int64"@[0]);
    }
    assert("uint32"@ != "uint16"@) by {
        assert("uint32"@[4] != "uint16"@[4]);
    }
    assert("uint64"@ != "uint16"@) by {
        assert("uint64"@[4] != "uint16"@[4]);
    }
    assert("binary"@ != "uint16"@) by {
        assert("binary"@[0] != "uint16"@[0]);
    }
    assert("date32"@ != "uint16"@) by {
        assert("date32"@[0] != "uint16"@[0]);
    }
    assert("uint64"@ != "uint32"@) by {
        assert("uint64"@[4] != "uint32"@[4]);
    }
    assert("binary"@ != "uint32"@) by {
        assert("binary"@[0] != "uint32"@[0]);
    }
    assert("date32"@ != "uint32"@) by {
        assert("date32"@[0] != "uint32"@[0]);
    }
    assert("binary"@ != "uint64"@) by {
        assert("binary"@[0] != "uint64"@[0]);
    }
    assert("date32"@ != "uint64"@) by {
        assert("date32"@[0] != "uint64"@[0]);
    }
    assert("float64"@ != "float32"@) by {
        assert("float64"@[5] != "float32"@[5]);
    }
    assert("date32"@ != "binary"@) by {
        assert("date32"@[0] != "binary"@[0]);
    }
    assert("date64"@ != "uint16"@) by {
        assert("date64"@[0] != "uint16"@[0]);
    }
    assert("date64"@ != "uint32"@) by {
        assert("date64"@[0] != "uint32"@[0]);
    }
    assert("date64"@ != "uint64"@) by {
        assert("date64"@[0] != "uint64"@[0]);
    }
    assert("date64"@ != "binary"@) by {
        assert("date64"@[0] != "binary"@[0]);
    }
    assert("date64"@ != "date32"@) by {
        assert("date64"@[4] != "date32"@[4]);
    }
}

/// Law: every type a user-facing declaration can name is in the supported
/// set of the encode direction, so a registered signature never reaches an
/// unencodable type.
pub proof fn lemma_declared_types_encodable(s: Seq<char>)
    requires
        tag_of_name(s) is Some,
    ensures
        call_of_tag(tag_of_name(s)->Some_0) is Some,
{
}

/// Law: every type the host-schema path can ingest by its numeric
/// identifier is in the supported set of the encode direction, so a column
/// built from host data can always be handed back.
pub proof fn lemma_host_types_encodable(id: int)
    requires
        tag_of_id(id) is Some,
    ensures
        call_of_tag(tag_of_id(id)->Some_0) is Some,
{
}

} // verus!
