//! Per-row scalar values: what one element of a column becomes when a
//! host callable is invoked row by row, and the builder that turns the
//! callable's per-row results back into a column.
//!
//! A null element becomes the `Missing` sentinel — its value bytes are
//! never read — and floating-point elements cross the boundary as their
//! raw bit patterns, bit-exact. The row-wise convention covers the types a
//! user-facing declaration can name: booleans, 32- and 64-bit integers,
//! and 32- and 64-bit floats.

use vstd::bytes::{spec_u32_from_le_bytes, spec_u64_from_le_bytes};
use vstd::bytes::{u32_from_le_bytes, u32_to_le_bytes, u64_from_le_bytes, u64_to_le_bytes};
use vstd::bytes::{lemma_auto_spec_u32_to_from_le_bytes, lemma_auto_spec_u64_to_from_le_bytes};
use vstd::prelude::*;
use vstd::slice::slice_subrange;

use crate::array::{fixed_width, ArrayModel, ColumnArray};
use crate::bitmap::{bitmap_get, get_bit, lemma_bitmap_bytes_cover, pack_bits};
use crate::buffer::Buffer;
use crate::errors::DataFusionError;
use crate::types::{spec_tag_name, tag_name, TypeTag};

verus! {

/// One element of a column, as the foreign runtime sees it in a row-wise
/// call: the missing sentinel for a null, a plain value otherwise. Floats
/// are carried as their raw bit patterns.
#[derive(Debug, Clone, Copy, PartialEq, Eq, Structural)]
pub enum ForeignScalar {
    /// The host's "missing" sentinel: the element is null.
    Missing,
    Bool(bool),
    Int32(i32),
    Int64(i64),
    /// The raw bits of a 32-bit float.
    Float32Bits(u32),
    /// The raw bits of a 64-bit float.
    Float64Bits(u64),
}

/// The types the row-wise convention supports: exactly those a user-facing
/// declaration can name.
pub open spec fn row_type_supported(t: TypeTag) -> bool {
    ||| t == TypeTag::Boolean
    ||| t == TypeTag::Int32
    ||| t == TypeTag::Int64
    ||| t == TypeTag::Float32
    ||| t == TypeTag::Float64
}

/// Whether a scalar is a value of the given type; the missing sentinel
/// belongs to every type.
pub open spec fn scalar_fits(s: ForeignScalar, t: TypeTag) -> bool {
    match s {
        ForeignScalar::Missing => true,
        ForeignScalar::Bool(_) => t == TypeTag::Boolean,
        ForeignScalar::Int32(_) => t == TypeTag::Int32,
        ForeignScalar::Int64(_) => t == TypeTag::Int64,
        ForeignScalar::Float32Bits(_) => t == TypeTag::Float32,
        ForeignScalar::Float64Bits(_) => t == TypeTag::Float64,
    }
}

/// The signed 32-bit value whose two's-complement pattern is `u`.
pub open spec fn i32_of_pattern(u: u32) -> i32 {
    if u < 0x8000_0000 {
        u as i32
    } else {
        (u - 0x1_0000_0000) as i32
    }
}

/// The two's-complement pattern of a signed 32-bit value.
pub open spec fn pattern_of_i32(v: i32) -> u32 {
    if v >= 0 {
        v as u32
    } else {
        (v + 0x1_0000_0000) as u32
    }
}

/// The signed 64-bit value whose two's-complement pattern is `u`.
pub open spec fn i64_of_pattern(u: u64) -> i64 {
    if u < 0x8000_0000_0000_0000 {
        u as i64
    } else {
        (u - 0x1_0000_0000_0000_0000) as i64
    }
}

/// The two's-complement pattern of a signed 64-bit value.
pub open spec fn pattern_of_i64(v: i64) -> u64 {
    if v >= 0 {
        v as u64
    } else {
        (v + 0x1_0000_0000_0000_0000) as u64
    }
}

/// The two conversions invert each other.
pub proof fn lemma_pattern_round_trip(u: u32, v: i32, w: u64, x: i64)
    ensures
        pattern_of_i32(i32_of_pattern(u)) == u,
        i32_of_pattern(pattern_of_i32(v)) == v,
        pattern_of_i64(i64_of_pattern(w)) == w,
        i64_of_pattern(pattern_of_i64(x)) == x,
{
}

/// Reads a signed 32-bit value out of its two's-complement pattern.
pub fn i32_from_pattern(u: u32) -> (r: i32)
    ensures
        r == i32_of_pattern(u),
{
    if u < 0x8000_0000 {
        u as i32
    } else {
        ((u - 0x8000_0000) as i32) + i32::MIN
    }
}

/// Writes a signed 32-bit value as its two's-complement pattern.
pub fn i32_to_pattern(v: i32) -> (r: u32)
    ensures
        r == pattern_of_i32(v),
{
    if v >= 0 {
        v as u32
    } else {
        ((v - i32::MIN) as u32) + 0x8000_0000
    }
}

/// Reads a signed 64-bit value out of its two's-complement pattern.
pub fn i64_from_pattern(u: u64) -> (r: i64)
    ensures
        r == i64_of_pattern(u),
{
    if u < 0x8000_0000_0000_0000 {
        u as i64
    } else {
        ((u - 0x8000_0000_0000_0000) as i64) + i64::MIN
    }
}

/// Writes a signed 64-bit value as its two's-complement pattern.
pub fn i64_to_pattern(v: i64) -> (r: u64)
    ensures
        r == pattern_of_i64(v),
{
    if v >= 0 {
        v as u64
    } else {
        ((v - i64::MIN) as u64) + 0x8000_0000_0000_0000
    }
}

/// Element `i` of a column under the row-wise convention: the missing
/// sentinel where the element is null — the value bytes are not read — and
/// the little-endian value of the element's bytes otherwise.
pub open spec fn spec_cell(a: ArrayModel, i: int) -> ForeignScalar {
    if a.null_at(i) {
        ForeignScalar::Missing
    } else {
        let v = a.buffers[0].bytes;
        match a.tag {
            TypeTag::Boolean => ForeignScalar::Bool(bitmap_get(v, i)),
            TypeTag::Int32 => ForeignScalar::Int32(
                i32_of_pattern(spec_u32_from_le_bytes(v.subrange(4 * i, 4 * i + 4))),
            ),
            TypeTag::Int64 => ForeignScalar::Int64(
                i64_of_pattern(spec_u64_from_le_bytes(v.subrange(8 * i, 8 * i + 8))),
            ),
            TypeTag::Float32 => ForeignScalar::Float32Bits(
                spec_u32_from_le_bytes(v.subrange(4 * i, 4 * i + 4)),
            ),
            TypeTag::Float64 => ForeignScalar::Float64Bits(
                spec_u64_from_le_bytes(v.subrange(8 * i, 8 * i + 8)),
            ),
            _ => ForeignScalar::Missing,
        }
    }
}

/// Decodes element `i` of a column into a foreign scalar. A null element
/// becomes the missing sentinel without its value ever being read as a
/// primitive.
pub fn get_cell(array: &ColumnArray, i: usize) -> (r: ForeignScalar)
    requires
        array@.wf(),
        row_type_supported(array@.tag),
        i < array@.len,
    ensures
        r == spec_cell(array@, i as int),
        array@.null_at(i as int) ==> r == ForeignScalar::Missing,
{
    proof {
        lemma_bitmap_bytes_cover(array@.len as nat);
    }
    let is_null: bool = match &array.nulls {
        Some(b) => !get_bit(&b.bytes, i),
        None => false,
    };
    if is_null {
        return ForeignScalar::Missing;
    }
    let values: &Buffer = &array.buffers[0];
    let vlen: usize = values.bytes.len();
    proof {
        assert(values@ == array@.buffers[0]) by {
            assert(array@.buffers[0] == array.buffers@.map_values(|b: Buffer| b@)[0]);
        }
        if array@.tag == TypeTag::Int32 || array@.tag == TypeTag::Float32 {
            assert(4 * (i as int) + 4 <= vlen as int);
        }
        if array@.tag == TypeTag::Int64 || array@.tag == TypeTag::Float64 {
            assert(8 * (i as int) + 8 <= vlen as int);
        }
    }
    match array.data_type {
        TypeTag::Boolean => ForeignScalar::Bool(get_bit(&values.bytes, i)),
        TypeTag::Int32 => {
            let start: usize = 4 * i;
            let sub: &[u8] = slice_subrange(values.bytes.as_slice(), start, start + 4);
            ForeignScalar::Int32(i32_from_pattern(u32_from_le_bytes(sub)))
        },
        TypeTag::Int64 => {
            let start: usize = 8 * i;
            let sub: &[u8] = slice_subrange(values.bytes.as_slice(), start, start + 8);
            ForeignScalar::Int64(i64_from_pattern(u64_from_le_bytes(sub)))
        },
        TypeTag::Float32 => {
            let start: usize = 4 * i;
            let sub: &[u8] = slice_subrange(values.bytes.as_slice(), start, start + 4);
            ForeignScalar::Float32Bits(u32_from_le_bytes(sub))
        },
        TypeTag::Float64 => {
            let start: usize = 8 * i;
            let sub: &[u8] = slice_subrange(values.bytes.as_slice(), start, start + 8);
            ForeignScalar::Float64Bits(u64_from_le_bytes(sub))
        },
        _ => {
            proof {
                assert(false);
            }
            ForeignScalar::Missing
        },
    }
}

/// A builder that collects the host callable's per-row results and
/// finalizes them into one column of the declared output type.
#[derive(Debug)]
pub struct ScalarBuilder {
    data_type: TypeTag,
    cells: Vec<ForeignScalar>,
}

/// The mathematical value of a builder: the declared type and the cells
/// collected so far.
#[verifier::ext_equal]
pub ghost struct BuilderModel {
    pub tag: TypeTag,
    pub cells: Seq<ForeignScalar>,
}

impl View for ScalarBuilder {
    type V = BuilderModel;

    closed spec fn view(&self) -> BuilderModel {
        BuilderModel { tag: self.data_type, cells: self.cells@ }
    }
}

impl ScalarBuilder {
    /// Every collected cell is a value of the declared type.
    pub open spec fn wf(&self) -> bool {
        &&& row_type_supported(self@.tag)
        &&& forall|i: int|
            0 <= i < self@.cells.len() ==> scalar_fits(#[trigger] self@.cells[i], self@.tag)
    }

    /// A builder for a column of the given type; a type outside the
    /// row-wise set is rejected by name.
    pub fn new(data_type: TypeTag) -> (r: Result<ScalarBuilder, DataFusionError>)
        ensures
            match r {
                Ok(b) => {
                    &&& row_type_supported(data_type)
                    &&& b@.tag == data_type
                    &&& b@.cells.len() == 0
                    &&& b.wf()
                },
                Err(e) => {
                    &&& !row_type_supported(data_type)
                    &&& e matches DataFusionError::UnsupportedType(m) && m@ == spec_tag_name(
                        data_type,
                    )
                },
            },
    {
        match data_type {
            TypeTag::Boolean | TypeTag::Int32 | TypeTag::Int64 | TypeTag::Float32
                | TypeTag::Float64 => Ok(ScalarBuilder { data_type, cells: Vec::new() }),
            _ => Err(DataFusionError::UnsupportedType(tag_name(&data_type))),
        }
    }

    /// How many cells were collected.
    pub fn len(&self) -> (r: usize)
        ensures
            r == self@.cells.len(),
    {
        self.cells.len()
    }

    /// Appends one result: the missing sentinel, or a value of the declared
    /// type. A value of any other type is the host returning something
    /// incompatible, and is rejected without changing the builder.
    pub fn append(&mut self, value: ForeignScalar) -> (r: Result<(), DataFusionError>)
        requires
            old(self).wf(),
        ensures
            final(self).wf(),
            final(self)@.tag == old(self)@.tag,
            match r {
                Ok(()) => scalar_fits(value, old(self)@.tag) && final(self)@.cells == old(
                    self,
                )@.cells.push(value),
                Err(e) => {
                    &&& !scalar_fits(value, old(self)@.tag)
                    &&& e matches DataFusionError::ForeignCallFailure(_)
                    &&& final(self)@ == old(self)@
                },
            },
    {
        let fits: bool = match (&value, &self.data_type) {
            (ForeignScalar::Missing, _) => true,
            (ForeignScalar::Bool(_), TypeTag::Boolean) => true,
            (ForeignScalar::Int32(_), TypeTag::Int32) => true,
            (ForeignScalar::Int64(_), TypeTag::Int64) => true,
            (ForeignScalar::Float32Bits(_), TypeTag::Float32) => true,
            (ForeignScalar::Float64Bits(_), TypeTag::Float64) => true,
            _ => false,
        };
        if fits {
            self.cells.push(value);
            proof {
                assert forall|i: int| 0 <= i < self@.cells.len() implies scalar_fits(
                    #[trigger] self@.cells[i],
                    self@.tag,
                ) by {
                    if i < self@.cells.len() - 1 {
                        assert(self@.cells[i] == old(self)@.cells[i]);
                    } else {
                        assert(self@.cells[i] == value);
                    }
                }
            }
            Ok(())
        } else {
            Err(
                DataFusionError::ForeignCallFailure(
                    "the host callable returned a value of the wrong type".to_owned(),
                ),
            )
        }
    }

    /// Finalizes the collected cells into a column of the declared type:
    /// a validity bitmap with one clear bit per missing cell, and the
    /// values packed in the type's layout. The engine's allocator decides
    /// where the column's buffers live, so their addresses are the
    /// caller's to give.
    #[verifier::loop_isolation(false)]
    pub fn finish(self, nulls_addr: usize, values_addr: usize) -> (r: ColumnArray)
        requires
            self.wf(),
        ensures
            r@.wf(),
            r@.tag == self@.tag,
            r@.len == self@.cells.len(),
            r@.nulls is Some,
            r@.nulls->Some_0.addr == nulls_addr,
            r@.buffers.len() == 1,
            r@.buffers[0].addr == values_addr,
            forall|i: int|
                0 <= i < self@.cells.len() ==> spec_cell(r@, i) == #[trigger] self@.cells[i],
            forall|i: int|
                0 <= i < self@.cells.len() ==> (r@.null_at(i) <==> self@.cells[i]
                    == ForeignScalar::Missing),
    {
        proof {
            lemma_auto_spec_u32_to_from_le_bytes();
            lemma_auto_spec_u64_to_from_le_bytes();
        }
        let ghost m = self@;
        let ScalarBuilder { data_type, cells } = self;
        let n: usize = cells.len();
        let mut valid: Vec<bool> = Vec::new();
        let mut i: usize = 0;
        while i < n
            invariant
                i <= n,
                valid@.len() == i,
                forall|j: int|
                    0 <= j < i ==> valid@[j] == (m.cells[j] != ForeignScalar::Missing),
            decreases n - i,
        {
            let is_valid: bool = match &cells[i] {
                ForeignScalar::Missing => false,
                _ => true,
            };
            valid.push(is_valid);
            i = i + 1;
        }
        let nulls_bytes: Vec<u8> = pack_bits(&valid);
        let nulls = Buffer { addr: nulls_addr, bytes: nulls_bytes };
        let values: Buffer = if let TypeTag::Boolean = data_type {
            let mut bools: Vec<bool> = Vec::new();
            let mut i: usize = 0;
            while i < n
                invariant
                    i <= n,
                    bools@.len() == i,
                    forall|j: int|
                        0 <= j < i ==> bools@[j] == (m.cells[j] == ForeignScalar::Bool(true)),
                decreases n - i,
            {
                let bit: bool = match &cells[i] {
                    ForeignScalar::Bool(b) => *b,
                    _ => false,
                };
                bools.push(bit);
                i = i + 1;
            }
            Buffer { addr: values_addr, bytes: pack_bits(&bools) }
        } else {
            let width: usize = match data_type {
                TypeTag::Int32 | TypeTag::Float32 => 4,
                _ => 8,
            };
            let mut bytes: Vec<u8> = Vec::new();
            let mut i: usize = 0;
            while i < n
                invariant
                    i <= n,
                    bytes@.len() == width * i,
                    width == fixed_width(m.tag)->Some_0,
                    forall|j: int|
                        0 <= j < i ==> #[trigger] cell_of_bytes(
                            m.tag,
                            bytes@.subrange(width * j, width * j + width),
                        ) == value_or_zero(m.tag, m.cells[j]),
                decreases n - i,
            {
                let ghost bytes_pre = bytes@;
                let mut chunk: Vec<u8> = match data_type {
                    TypeTag::Int32 => {
                        let v: i32 = match &cells[i] {
                            ForeignScalar::Int32(v) => *v,
                            _ => 0,
                        };
                        u32_to_le_bytes(i32_to_pattern(v))
                    },
                    TypeTag::Float32 => {
                        let v: u32 = match &cells[i] {
                            ForeignScalar::Float32Bits(v) => *v,
                            _ => 0,
                        };
                        u32_to_le_bytes(v)
                    },
                    TypeTag::Int64 => {
                        let v: i64 = match &cells[i] {
                            ForeignScalar::Int64(v) => *v,
                            _ => 0,
                        };
                        u64_to_le_bytes(i64_to_pattern(v))
                    },
                    _ => {
                        let v: u64 = match &cells[i] {
                            ForeignScalar::Float64Bits(v) => *v,
                            _ => 0,
                        };
                        u64_to_le_bytes(v)
                    },
                };
                let ghost chunk_pre = chunk@;
                bytes.append(&mut chunk);
                proof {
                    assert forall|j: int|
                        0 <= j < i implies #[trigger] cell_of_bytes(
                        m.tag,
                        bytes@.subrange(width * j, width * j + width),
                    ) == value_or_zero(m.tag, m.cells[j]) by {
                        assert(bytes@.subrange(width * j, width * j + width) =~= bytes_pre.subrange(
                            width * j,
                            width * j + width,
                        ));
                    }
                    assert(bytes@.subrange(width * (i as int), width * (i as int) + width)
                        =~= chunk_pre);
                    assert(cell_of_bytes(
                        m.tag,
                        bytes@.subrange(width * (i as int), width * (i as int) + width),
                    ) == value_or_zero(m.tag, m.cells[i as int]));
                }
                i = i + 1;
            }
            Buffer { addr: values_addr, bytes }
        };
        let result = ColumnArray { data_type, len: n, nulls: Some(nulls), buffers: vec![values] };
        proof {
            lemma_bitmap_bytes_cover(n as nat);
            assert(result@.buffers[0] == values@);
            assert(result@.wf()) by {
                if m.tag != TypeTag::Boolean {
                    assert(result@.buffers[0].bytes.len() == n * fixed_width(m.tag)->Some_0);
                }
            }
            assert forall|i: int| 0 <= i < n implies spec_cell(result@, i)
                == #[trigger] m.cells[i] by {
                assert(result@.null_at(i) == (m.cells[i] == ForeignScalar::Missing));
                if m.cells[i] != ForeignScalar::Missing {
                    if m.tag != TypeTag::Boolean {
                        let width = fixed_width(m.tag)->Some_0;
                        assert(cell_of_bytes(
                            m.tag,
                            result@.buffers[0].bytes.subrange(width * i, width * i + width),
                        ) == value_or_zero(m.tag, m.cells[i]));
                        assert(scalar_fits(m.cells[i], m.tag));
                    }
                }
            }
        }
        result
    }
}

/// The scalar a chunk of value bytes holds, for one fixed-width row type.
pub open spec fn cell_of_bytes(t: TypeTag, bytes: Seq<u8>) -> ForeignScalar {
    match t {
        TypeTag::Int32 => ForeignScalar::Int32(i32_of_pattern(spec_u32_from_le_bytes(bytes))),
        TypeTag::Int64 => ForeignScalar::Int64(i64_of_pattern(spec_u64_from_le_bytes(bytes))),
        TypeTag::Float32 => ForeignScalar::Float32Bits(spec_u32_from_le_bytes(bytes)),
        TypeTag::Float64 => ForeignScalar::Float64Bits(spec_u64_from_le_bytes(bytes)),
        _ => ForeignScalar::Missing,
    }
}

/// A cell's value, with the missing sentinel standing for the zero of its
/// column's type: what the builder writes into the values buffer at a null
/// position.
pub open spec fn value_or_zero(t: TypeTag, s: ForeignScalar) -> ForeignScalar {
    if s == ForeignScalar::Missing {
        match t {
            TypeTag::Int32 => ForeignScalar::Int32(0),
            TypeTag::Int64 => ForeignScalar::Int64(0),
            TypeTag::Float32 => ForeignScalar::Float32Bits(0),
            TypeTag::Float64 => ForeignScalar::Float64Bits(0),
            _ => ForeignScalar::Missing,
        }
    } else {
        s
    }
}

} // verus!
