//! The array codec: one native column to one foreign array and back.
//!
//! A column is a type tag, a length, an optional validity bitmap and the
//! value buffers the type's layout calls for: one buffer for bit-packed or
//! fixed-width values, an offsets buffer and a values buffer for
//! variable-length values. Encoding selects the foreign type descriptor,
//! hands every buffer to the foreign side in layout order — zero copy, with
//! a ledger record per buffer — and describes the column as a foreign array.
//! Decoding validates the descriptor before anything else is read: the type
//! must be known, the buffer count must match the type's layout, required
//! buffers must be present and their lengths consistent with the declared
//! array length.

use vstd::prelude::*;

use crate::bitmap::{count_nulls, lemma_bitmap_bytes_cover, min_bitmap_bytes, spec_null_count};
use crate::bitmap::bitmap_get;
use crate::buffer::{Buffer, BufferModel, ForeignBuffer, TransferLedger};
use crate::buffer::to_buffer;
use crate::errors::DataFusionError;
use crate::types::{call_of_tag, from_foreign, spec_tag_name, tag_of_call, type_to_type};
use crate::types::{ForeignTypeCall, ForeignTypeCallModel, TypeTag};

verus! {

/// The width in bytes of one value of a fixed-width type, `None` for
/// bit-packed, variable-length and nested types.
pub open spec fn fixed_width(t: TypeTag) -> Option<int> {
    match t {
        TypeTag::Int8 => Some(1),
        TypeTag::UInt8 => Some(1),
        TypeTag::Int16 => Some(2),
        TypeTag::UInt16 => Some(2),
        TypeTag::Int32 => Some(4),
        TypeTag::UInt32 => Some(4),
        TypeTag::Float32 => Some(4),
        TypeTag::Date32 => Some(4),
        TypeTag::Int64 => Some(8),
        TypeTag::UInt64 => Some(8),
        TypeTag::Float64 => Some(8),
        TypeTag::Date64 => Some(8),
        TypeTag::Timestamp(_) => Some(8),
        TypeTag::Duration(_) => Some(8),
        TypeTag::FixedSizeBinary(w) => Some(w as int),
        _ => None,
    }
}

/// The width in bytes of one offset of a variable-length type, `None`
/// elsewhere.
pub open spec fn offset_width(t: TypeTag) -> Option<int> {
    match t {
        TypeTag::Utf8 => Some(4),
        TypeTag::Binary => Some(4),
        TypeTag::LargeUtf8 => Some(8),
        TypeTag::LargeBinary => Some(8),
        _ => None,
    }
}

/// Whether the type has a column layout at all; nested types do not.
pub open spec fn has_layout(t: TypeTag) -> bool {
    t == TypeTag::Boolean || fixed_width(t) is Some || offset_width(t) is Some
}

/// How many value buffers the type's layout calls for.
pub open spec fn value_buffer_count(t: TypeTag) -> int {
    if offset_width(t) is Some {
        2
    } else {
        1
    }
}

/// The mathematical value of a native column.
#[verifier::ext_equal]
pub ghost struct ArrayModel {
    pub tag: TypeTag,
    pub len: usize,
    pub nulls: Option<BufferModel>,
    pub buffers: Seq<BufferModel>,
}

impl ArrayModel {
    /// The validity bitmap, when present, covers the whole column.
    pub open spec fn nulls_ok(self) -> bool {
        match self.nulls {
            Some(b) => b.bytes.len() >= min_bitmap_bytes(self.len as nat),
            None => true,
        }
    }

    /// The value buffers match the type's layout: their number, and lengths
    /// consistent with the declared column length.
    pub open spec fn values_ok(self) -> bool {
        if self.tag == TypeTag::Boolean {
            self.buffers.len() == 1 && self.buffers[0].bytes.len() >= min_bitmap_bytes(
                self.len as nat,
            )
        } else if fixed_width(self.tag) is Some {
            self.buffers.len() == 1 && self.buffers[0].bytes.len() >= self.len * fixed_width(
                self.tag,
            )->Some_0
        } else if offset_width(self.tag) is Some {
            self.buffers.len() == 2 && (self.len > 0 ==> self.buffers[0].bytes.len() >= (self.len
                + 1) * offset_width(self.tag)->Some_0)
        } else {
            false
        }
    }

    /// A well-formed column: every buffer's length is consistent with the
    /// column's length and the type's layout.
    pub open spec fn wf(self) -> bool {
        self.nulls_ok() && self.values_ok()
    }

    /// Whether one of the column's buffers lives at address `x`.
    pub open spec fn has_addr(self, x: usize) -> bool {
        (self.nulls matches Some(b) && b.addr == x) || exists|i: int|
            0 <= i < self.buffers.len() && self.buffers[i].addr == x
    }

    /// No two of the column's buffers share an address.
    pub open spec fn addrs_distinct(self) -> bool {
        &&& forall|i: int, j: int|
            0 <= i < j < self.buffers.len() ==> self.buffers[i].addr != self.buffers[j].addr
        &&& match self.nulls {
            Some(b) => forall|i: int|
                0 <= i < self.buffers.len() ==> self.buffers[i].addr != b.addr,
            None => true,
        }
    }

    /// Whether element `i` is null: bit value 0 in the validity bitmap; a
    /// column without a bitmap has no nulls.
    pub open spec fn null_at(self, i: int) -> bool {
        match self.nulls {
            Some(b) => !bitmap_get(b.bytes, i),
            None => false,
        }
    }

    /// How many of the column's elements are null.
    pub open spec fn null_total(self) -> nat {
        match self.nulls {
            Some(b) => spec_null_count(b.bytes, self.len as nat),
            None => 0,
        }
    }
}

/// One native column: its type, its length, its optional validity bitmap
/// and its value buffers in layout order.
#[derive(Debug, PartialEq, Eq)]
pub struct ColumnArray {
    pub data_type: TypeTag,
    pub len: usize,
    pub nulls: Option<Buffer>,
    pub buffers: Vec<Buffer>,
}

impl View for ColumnArray {
    type V = ArrayModel;

    open spec fn view(&self) -> ArrayModel {
        ArrayModel {
            tag: self.data_type,
            len: self.len,
            nulls: match self.nulls {
                Some(b) => Some(b@),
                None => None,
            },
            buffers: self.buffers@.map_values(|b: Buffer| b@),
        }
    }
}

/// The value of one slot of a foreign array's buffer list.
pub open spec fn opt_buffer_view(b: Option<ForeignBuffer>) -> Option<BufferModel> {
    match b {
        Some(x) => Some(x@),
        None => None,
    }
}

/// A foreign array descriptor: the foreign type descriptor, the length, the
/// null count, and the buffer list, whose first slot is the validity bitmap
/// or absent.
#[derive(Debug, PartialEq, Eq)]
pub struct ForeignArray {
    pub type_call: ForeignTypeCall,
    pub len: usize,
    pub null_count: usize,
    pub buffers: Vec<Option<ForeignBuffer>>,
}

/// The mathematical value of a foreign array descriptor.
#[verifier::ext_equal]
pub ghost struct ForeignArrayModel {
    pub type_call: ForeignTypeCallModel,
    pub len: usize,
    pub null_count: usize,
    pub buffers: Seq<Option<BufferModel>>,
}

impl View for ForeignArray {
    type V = ForeignArrayModel;

    open spec fn view(&self) -> ForeignArrayModel {
        ForeignArrayModel {
            type_call: self.type_call@,
            len: self.len,
            null_count: self.null_count,
            buffers: self.buffers@.map_values(|b: Option<ForeignBuffer>| opt_buffer_view(b)),
        }
    }
}

/// What encoding a well-formed column yields: the foreign descriptor of its
/// type, the same length, the counted nulls, and the column's own buffers —
/// the bitmap in slot 0, the value buffers after it, none of them copied.
pub open spec fn spec_encode(a: ArrayModel) -> Option<ForeignArrayModel> {
    match call_of_tag(a.tag) {
        None => None,
        Some(c) => Some(
            ForeignArrayModel {
                type_call: c,
                len: a.len,
                null_count: a.null_total() as usize,
                buffers: seq![a.nulls] + a.buffers.map_values(|b: BufferModel| Some(b)),
            },
        ),
    }
}

/// The buffer list has exactly the slots the type's layout calls for.
pub open spec fn decode_count_ok(fa: ForeignArrayModel, t: TypeTag) -> bool {
    fa.buffers.len() == 1 + value_buffer_count(t)
}

/// Every value slot holds a buffer; only the bitmap slot may be absent.
pub open spec fn decode_present(fa: ForeignArrayModel) -> bool {
    forall|i: int| 1 <= i < fa.buffers.len() ==> fa.buffers[i] is Some
}

/// The column a foreign array decodes to, once its slots are validated.
pub open spec fn spec_decoded(fa: ForeignArrayModel, t: TypeTag) -> ArrayModel {
    ArrayModel {
        tag: t,
        len: fa.len,
        nulls: fa.buffers[0],
        buffers: fa.buffers.subrange(1, fa.buffers.len() as int).map_values(
            |ob: Option<BufferModel>| ob->Some_0,
        ),
    }
}

/// Whether a foreign array decodes at all: known type, full buffer list,
/// required buffers present, lengths consistent.
pub open spec fn decode_ok(fa: ForeignArrayModel) -> bool {
    &&& tag_of_call(fa.type_call) is Some
    &&& decode_count_ok(fa, tag_of_call(fa.type_call)->Some_0)
    &&& decode_present(fa)
    &&& spec_decoded(fa, tag_of_call(fa.type_call)->Some_0).wf()
}

/// The width of one value of a fixed-width type.
fn exec_fixed_width(t: &TypeTag) -> (r: Option<u32>)
    ensures
        match r {
            Some(w) => fixed_width(*t) == Some(w as int),
            None => fixed_width(*t) is None,
        },
{
    match t {
        TypeTag::Int8 => Some(1),
        TypeTag::UInt8 => Some(1),
        TypeTag::Int16 => Some(2),
        TypeTag::UInt16 => Some(2),
        TypeTag::Int32 => Some(4),
        TypeTag::UInt32 => Some(4),
        TypeTag::Float32 => Some(4),
        TypeTag::Date32 => Some(4),
        TypeTag::Int64 => Some(8),
        TypeTag::UInt64 => Some(8),
        TypeTag::Float64 => Some(8),
        TypeTag::Date64 => Some(8),
        TypeTag::Timestamp(_) => Some(8),
        TypeTag::Duration(_) => Some(8),
        TypeTag::FixedSizeBinary(w) => Some(*w),
        _ => None,
    }
}

/// The width of one offset of a variable-length type.
fn exec_offset_width(t: &TypeTag) -> (r: Option<u32>)
    ensures
        match r {
            Some(w) => offset_width(*t) == Some(w as int),
            None => offset_width(*t) is None,
        },
{
    match t {
        TypeTag::Utf8 => Some(4),
        TypeTag::Binary => Some(4),
        TypeTag::LargeUtf8 => Some(8),
        TypeTag::LargeBinary => Some(8),
        _ => None,
    }
}

/// The least number of bytes that hold `len` bits.
fn exec_min_bitmap_bytes(len: usize) -> (r: usize)
    ensures
        r == min_bitmap_bytes(len as nat),
{
    len / 8 + if len % 8 == 0 {
        0
    } else {
        1
    }
}

/// Encodes one native column as a foreign array: selects the foreign type
/// descriptor, counts the nulls, and hands the bitmap and every value
/// buffer to the foreign side through the ledger, in layout order and
/// without copying a byte. A column of a type outside the supported set is
/// rejected before any buffer changes hands.
#[verifier::loop_isolation(false)]
pub fn to_py_array(array: ColumnArray, ledger: &mut TransferLedger) -> (r: Result<
    ForeignArray,
    DataFusionError,
>)
    requires
        old(ledger).wf(),
        array@.wf(),
        array@.addrs_distinct(),
        forall|x: usize| array@.has_addr(x) ==> !old(ledger).transferred(x),
    ensures
        final(ledger).wf(),
        match r {
            Ok(fa) => {
                &&& spec_encode(array@) == Some(fa@)
                &&& forall|x: usize|
                    final(ledger).transferred(x) == (old(ledger).transferred(x) || array@.has_addr(
                        x,
                    ))
                &&& forall|x: usize|
                    final(ledger).live(x) == (old(ledger).live(x) || array@.has_addr(x))
            },
            Err(e) => {
                &&& call_of_tag(array@.tag) is None
                &&& e matches DataFusionError::UnsupportedType(m) && m@ == spec_tag_name(
                    array@.tag,
                )
                &&& final(ledger)@ == old(ledger)@
            },
        },
{
    let ghost a = array@;
    let ColumnArray { data_type, len, nulls, buffers } = array;
    let type_call: ForeignTypeCall = match type_to_type(&data_type) {
        Ok(c) => c,
        Err(e) => {
            return Err(e);
        },
    };
    let null_count: usize = match &nulls {
        Some(b) => {
            proof {
                lemma_bitmap_bytes_cover(len as nat);
            }
            count_nulls(&b.bytes, len)
        },
        None => 0,
    };
    let mut out: Vec<Option<ForeignBuffer>> = Vec::new();
    match nulls {
        Some(b) => {
            let fb = ledger.transfer(b);
            out.push(Some(fb));
        },
        None => {
            out.push(None);
        },
    }
    proof {
        assert(opt_buffer_view(out@[0]) == a.nulls);
    }
    let mut rest = buffers;
    let ghost b_all = a.buffers;
    let ghost mut k: int = 0;
    proof {
        assert forall|j: int| 0 <= j < rest@.len() implies #[trigger] rest@[j]@ == b_all[j] by {
            assert(b_all[j] == rest@.map_values(|b: Buffer| b@)[j]);
        }
    }
    while rest.len() > 0
        invariant
            ledger.wf(),
            0 <= k <= b_all.len(),
            rest@.len() + k == b_all.len(),
            forall|j: int| 0 <= j < rest@.len() ==> #[trigger] rest@[j]@ == b_all[k + j],
            out@.len() == 1 + k,
            opt_buffer_view(out@[0]) == a.nulls,
            forall|j: int| 0 <= j < k ==> opt_buffer_view(#[trigger] out@[1 + j]) == Some(b_all[j]),
            a.addrs_distinct(),
            a.nulls matches Some(nb) ==> (forall|j: int|
                0 <= j < b_all.len() ==> b_all[j].addr != nb.addr),
            forall|j: int, j2: int|
                0 <= j < j2 < b_all.len() ==> b_all[j].addr != b_all[j2].addr,
            forall|x: usize| a.has_addr(x) ==> !old(ledger).transferred(x),
            forall|x: usize|
                ledger.transferred(x) == (old(ledger).transferred(x) || (a.nulls matches Some(nb)
                    && nb.addr == x) || exists|j: int| 0 <= j < k && b_all[j].addr == x),
            forall|x: usize|
                ledger.live(x) == (old(ledger).live(x) || (a.nulls matches Some(nb) && nb.addr
                    == x) || exists|j: int| 0 <= j < k && b_all[j].addr == x),
        decreases rest@.len(),
    {
        let ghost rest_pre = rest@;
        let b = rest.remove(0);
        proof {
            assert(b@ == b_all[k]);
            assert(!ledger.transferred(b.addr)) by {
                assert(a.buffers[k].addr == b.addr);
                assert(a.has_addr(b.addr));
                if old(ledger).transferred(b.addr) {
                    assert(false);
                }
                if a.nulls matches Some(nb) && nb.addr == b.addr {
                    assert(false);
                }
                if exists|j: int| 0 <= j < k && b_all[j].addr == b.addr {
                    let j = choose|j: int| 0 <= j < k && b_all[j].addr == b.addr;
                    assert(false);
                }
            }
        }
        let fb = ledger.transfer(b);
        out.push(Some(fb));
        proof {
            k = k + 1;
            assert forall|j: int| 0 <= j < rest@.len() implies #[trigger] rest@[j]@ == b_all[k
                + j] by {
                assert(rest@[j] == rest_pre[j + 1]);
            }
        }
    }
    proof {
        assert(k == b_all.len());
        assert forall|x: usize|
            ledger.transferred(x) == (old(ledger).transferred(x) || a.has_addr(x)) by {
            if exists|j: int| 0 <= j < k && b_all[j].addr == x {
                let j = choose|j: int| 0 <= j < k && b_all[j].addr == x;
                assert(a.buffers[j].addr == x);
            }
            if a.has_addr(x) && !(a.nulls matches Some(nb) && nb.addr == x) {
                let j = choose|j: int| 0 <= j < a.buffers.len() && a.buffers[j].addr == x;
                assert(b_all[j].addr == x);
            }
        }
        assert forall|x: usize| ledger.live(x) == (old(ledger).live(x) || a.has_addr(x)) by {
            if exists|j: int| 0 <= j < k && b_all[j].addr == x {
                let j = choose|j: int| 0 <= j < k && b_all[j].addr == x;
                assert(a.buffers[j].addr == x);
            }
            if a.has_addr(x) && !(a.nulls matches Some(nb) && nb.addr == x) {
                let j = choose|j: int| 0 <= j < a.buffers.len() && a.buffers[j].addr == x;
                assert(b_all[j].addr == x);
            }
        }
    }
    let result = ForeignArray { type_call, len, null_count, buffers: out };
    proof {
        let expect = spec_encode(a)->Some_0;
        assert forall|i: int| 0 <= i < result@.buffers.len() implies result@.buffers[i]
            == expect.buffers[i] by {
            assert(result@.buffers[i] == opt_buffer_view(out@[i]));
            if i >= 1 {
                assert(opt_buffer_view(out@[1 + (i - 1)]) == Some(b_all[i - 1]));
                assert(expect.buffers[i] == a.buffers.map_values(|b: BufferModel| Some(b))[i - 1]);
            }
        }
        assert(result@.buffers =~= expect.buffers);
        assert(result@ =~= expect);
    }
    Ok(result)
}

/// Decodes a foreign array as a column of the given type, validating the
/// buffer list against the type's layout before constructing anything.
fn decode_as(t: TypeTag, array: ForeignArray) -> (r: Result<ColumnArray, DataFusionError>)
    requires
        has_layout(t),
    ensures
        match r {
            Ok(a) => {
                &&& decode_count_ok(array@, t)
                &&& decode_present(array@)
                &&& a@ == spec_decoded(array@, t)
                &&& a@.wf()
            },
            Err(e) => match e {
                DataFusionError::NullBufferMissing => decode_count_ok(array@, t)
                    && !decode_present(array@),
                DataFusionError::LengthMismatch => !decode_count_ok(array@, t) || (decode_present(
                    array@,
                ) && !spec_decoded(array@, t).wf()),
                _ => false,
            },
        },
{
    let ghost fa = array@;
    let vcount: usize = if exec_offset_width(&t).is_some() {
        2
    } else {
        1
    };
    proof {
        assert(fa.buffers.len() == array.buffers@.len());
    }
    if array.buffers.len() != 1 + vcount {
        return Err(DataFusionError::LengthMismatch);
    }
    let ForeignArray { type_call: _, len, null_count: _, buffers } = array;
    proof {
        assert forall|i: int| 0 <= i < buffers@.len() implies fa.buffers[i] == opt_buffer_view(
            buffers@[i],
        ) by {
            assert(fa.buffers[i] == buffers@.map_values(
                |b: Option<ForeignBuffer>| opt_buffer_view(b),
            )[i]);
        }
    }
    let mut slots = buffers;
    let ghost slots0 = slots@;
    let slot0: Option<ForeignBuffer> = slots.remove(0);
    proof {
        assert(fa.buffers[0] == opt_buffer_view(slot0));
        assert forall|i: int| 0 <= i < slots@.len() implies slots@[i] == slots0[i + 1] by {}
    }
    let nulls: Option<Buffer> = match slot0 {
        None => None,
        Some(fb) => match to_buffer(fb, 1) {
            Ok(b) => Some(b),
            Err(e) => {
                // byte alignment holds of every address: this arm is dead
                proof {
                    assert(fb.addr as int % 1int == 0);
                    assert(false);
                }
                return Err(e);
            },
        },
    };
    proof {
        assert(fa.buffers[0] == match nulls {
            Some(b) => Some(b@),
            None => None,
        });
    }
    let min_bitmap: usize = exec_min_bitmap_bytes(len);
    let values: Buffer = match slots.remove(0) {
        None => {
            proof {
                assert(fa.buffers[1] is None);
                assert(!decode_present(fa));
            }
            return Err(DataFusionError::NullBufferMissing);
        },
        Some(fb) => match to_buffer(fb, 1) {
            Ok(b) => b,
            Err(e) => {
                // byte alignment holds of every address: this arm is dead
                proof {
                    assert(fb.addr as int % 1int == 0);
                    assert(false);
                }
                return Err(e);
            },
        },
    };
    proof {
        assert(fa.buffers[1] == Some(values@));
    }
    if let TypeTag::Boolean = t {
        match &nulls {
            Some(b) => {
                if b.bytes.len() < min_bitmap {
                    proof {
                        assert(!spec_decoded(fa, t).nulls_ok());
                    }
                    return Err(DataFusionError::LengthMismatch);
                }
            },
            None => {},
        }
        if values.bytes.len() < min_bitmap {
            proof {
                assert(spec_decoded(fa, t).buffers[0] == values@);
                assert(!spec_decoded(fa, t).values_ok());
            }
            return Err(DataFusionError::LengthMismatch);
        }
        let a = ColumnArray { data_type: t, len, nulls, buffers: vec![values] };
        proof {
            assert(a@.buffers =~= spec_decoded(fa, t).buffers) by {
                assert(a@.buffers[0] == values@);
                assert(spec_decoded(fa, t).buffers[0] == values@);
            }
            assert(a@ =~= spec_decoded(fa, t));
        }
        Ok(a)
    } else if let Some(w) = exec_fixed_width(&t) {
        proof {
            assert(spec_decoded(fa, t).buffers[0] == values@);
        }
        match &nulls {
            Some(b) => {
                if b.bytes.len() < min_bitmap {
                    proof {
                        assert(!spec_decoded(fa, t).nulls_ok());
                    }
                    return Err(DataFusionError::LengthMismatch);
                }
            },
            None => {},
        }
        let vlen: usize = values.bytes.len();
        let needed: usize = match len.checked_mul(w as usize) {
            Some(n) => n,
            None => {
                proof {
                    assert(values.bytes@.len() < len * (w as int)) by {
                        assert(values.bytes@.len() == vlen <= usize::MAX);
                    }
                    assert(!spec_decoded(fa, t).values_ok());
                }
                return Err(DataFusionError::LengthMismatch);
            },
        };
        if values.bytes.len() < needed {
            proof {
                assert(!spec_decoded(fa, t).values_ok());
            }
            return Err(DataFusionError::LengthMismatch);
        }
        let a = ColumnArray { data_type: t, len, nulls, buffers: vec![values] };
        proof {
            assert(a@.buffers =~= spec_decoded(fa, t).buffers) by {
                assert(a@.buffers[0] == values@);
            }
            assert(a@ =~= spec_decoded(fa, t));
        }
        Ok(a)
    } else {
        let w: u32 = match exec_offset_width(&t) {
            Some(w) => w,
            None => {
                proof {
                    assert(false);
                }
                return Err(DataFusionError::LengthMismatch);
            },
        };
        let offsets: Buffer = values;
        let values2: Buffer = match slots.remove(0) {
            None => {
                proof {
                    assert(fa.buffers[2] is None);
                    assert(!decode_present(fa));
                }
                return Err(DataFusionError::NullBufferMissing);
            },
            Some(fb) => match to_buffer(fb, 1) {
                Ok(b) => b,
                Err(e) => {
                    // byte alignment holds of every address: this arm is dead
                    proof {
                        assert(fb.addr as int % 1int == 0);
                        assert(false);
                    }
                    return Err(e);
                },
            },
        };
        proof {
            assert(fa.buffers[2] == Some(values2@));
            assert(spec_decoded(fa, t).buffers[0] == offsets@);
            assert(spec_decoded(fa, t).buffers[1] == values2@);
        }
        match &nulls {
            Some(b) => {
                if b.bytes.len() < min_bitmap {
                    proof {
                        assert(!spec_decoded(fa, t).nulls_ok());
                    }
                    return Err(DataFusionError::LengthMismatch);
                }
            },
            None => {},
        }
        if len > 0 {
            let olen: usize = offsets.bytes.len();
            let needed: usize = match len.checked_add(1) {
                Some(l1) => match l1.checked_mul(w as usize) {
                    Some(n) => n,
                    None => {
                        proof {
                            assert(offsets.bytes@.len() < (len + 1) * (w as int)) by {
                                assert(offsets.bytes@.len() == olen <= usize::MAX);
                            }
                            assert(!spec_decoded(fa, t).values_ok());
                        }
                        return Err(DataFusionError::LengthMismatch);
                    },
                },
                None => {
                    proof {
                        assert(offsets.bytes@.len() < (len + 1) * (w as int)) by {
                            assert(offsets.bytes@.len() == olen <= usize::MAX);
                            assert((len + 1) * (w as int) >= len + 1) by (nonlinear_arith)
                                requires
                                    w >= 1,
                            ;
                        }
                        assert(!spec_decoded(fa, t).values_ok());
                    }
                    return Err(DataFusionError::LengthMismatch);
                },
            };
            if offsets.bytes.len() < needed {
                proof {
                    assert(!spec_decoded(fa, t).values_ok());
                }
                return Err(DataFusionError::LengthMismatch);
            }
        }
        let a = ColumnArray { data_type: t, len, nulls, buffers: vec![offsets, values2] };
        proof {
            assert(a@.buffers =~= spec_decoded(fa, t).buffers) by {
                assert(a@.buffers[0] == offsets@);
                assert(a@.buffers[1] == values2@);
            }
            assert(a@ =~= spec_decoded(fa, t));
        }
        Ok(a)
    }
}

/// Every type the decode mapper can yield has a column layout.
proof fn lemma_decodable_has_layout(c: ForeignTypeCallModel)
    requires
        tag_of_call(c) is Some,
    ensures
        has_layout(tag_of_call(c)->Some_0),
{
}

/// Decodes a foreign array into a native column: resolves the type from the
/// foreign descriptor, validates the buffer list against its layout, and
/// re-imports every buffer without copying.
pub fn to_rust(array: ForeignArray) -> (r: Result<ColumnArray, DataFusionError>)
    ensures
        match r {
            Ok(a) => {
                &&& decode_ok(array@)
                &&& a@ == spec_decoded(array@, tag_of_call(array@.type_call)->Some_0)
                &&& a@.wf()
            },
            Err(e) => {
                &&& !decode_ok(array@)
                &&& match e {
                    DataFusionError::UnsupportedType(_) => tag_of_call(array@.type_call) is None,
                    DataFusionError::NullBufferMissing => tag_of_call(array@.type_call)
                        matches Some(t) && decode_count_ok(array@, t) && !decode_present(array@),
                    DataFusionError::LengthMismatch => tag_of_call(array@.type_call)
                        matches Some(t) && (!decode_count_ok(array@, t) || (decode_present(array@)
                        && !spec_decoded(array@, t).wf())),
                    _ => false,
                }
            },
        },
{
    let t: TypeTag = match from_foreign(&array.type_call) {
        Ok(t) => t,
        Err(e) => {
            return Err(e);
        },
    };
    proof {
        lemma_decodable_has_layout(array@.type_call);
    }
    decode_as(t, array)
}

/// Decodes a foreign array as a column of a declared type: the foreign
/// descriptor must resolve to exactly that type, and the buffer list is
/// validated against its layout, as the decode path does.
pub fn to_arrow(array: ForeignArray, data_type: &TypeTag) -> (r: Result<
    ColumnArray,
    DataFusionError,
>)
    ensures
        match r {
            Ok(a) => {
                &&& tag_of_call(array@.type_call) == Some(*data_type)
                &&& decode_ok(array@)
                &&& a@ == spec_decoded(array@, *data_type)
                &&& a@.wf()
            },
            Err(e) => match e {
                DataFusionError::UnsupportedType(_) => tag_of_call(array@.type_call) is None,
                DataFusionError::SchemaMismatch => tag_of_call(array@.type_call) matches Some(t)
                    && t != *data_type,
                DataFusionError::NullBufferMissing => tag_of_call(array@.type_call) == Some(
                    *data_type,
                ) && decode_count_ok(array@, *data_type) && !decode_present(array@),
                DataFusionError::LengthMismatch => tag_of_call(array@.type_call) == Some(
                    *data_type,
                ) && (!decode_count_ok(array@, *data_type) || (decode_present(array@)
                    && !spec_decoded(array@, *data_type).wf())),
                _ => false,
            },
        },
{
    let t: TypeTag = match from_foreign(&array.type_call) {
        Ok(t) => t,
        Err(e) => {
            return Err(e);
        },
    };
    if t != *data_type {
        return Err(DataFusionError::SchemaMismatch);
    }
    proof {
        lemma_decodable_has_layout(array@.type_call);
    }
    decode_as(t, array)
}

/// The runtime test of a column's well-formedness: whether every buffer's
/// length is consistent with the column's length and the type's layout, so
/// an embedding can check a column before handing it to the encoder.
pub fn column_wf(array: &ColumnArray) -> (r: bool)
    ensures
        r == array@.wf(),
{
    let len: usize = array.len;
    let min_bitmap: usize = exec_min_bitmap_bytes(len);
    let nulls_ok: bool = match &array.nulls {
        Some(b) => b.bytes.len() >= min_bitmap,
        None => true,
    };
    if !nulls_ok {
        return false;
    }
    proof {
        assert forall|j: int| 0 <= j < array.buffers@.len() implies #[trigger] array@.buffers[j]
            == array.buffers@[j]@ by {
            assert(array@.buffers[j] == array.buffers@.map_values(|b: Buffer| b@)[j]);
        }
    }
    if let TypeTag::Boolean = array.data_type {
        array.buffers.len() == 1 && array.buffers[0].bytes.len() >= min_bitmap
    } else if let Some(w) = exec_fixed_width(&array.data_type) {
        if array.buffers.len() != 1 {
            return false;
        }
        let vlen: usize = array.buffers[0].bytes.len();
        match len.checked_mul(w as usize) {
            Some(n) => vlen >= n,
            None => {
                proof {
                    assert(vlen < len * (w as int));
                }
                false
            },
        }
    } else if let Some(w) = exec_offset_width(&array.data_type) {
        if array.buffers.len() != 2 {
            return false;
        }
        if len == 0 {
            return true;
        }
        let olen: usize = array.buffers[0].bytes.len();
        match len.checked_add(1) {
            Some(l1) => match l1.checked_mul(w as usize) {
                Some(n) => olen >= n,
                None => {
                    proof {
                        assert(olen < (len + 1) * (w as int));
                    }
                    false
                },
            },
            None => {
                proof {
                    assert(olen < (len + 1) * (w as int)) by {
                        assert((len + 1) * (w as int) >= len + 1) by (nonlinear_arith)
                            requires
                                w >= 1,
                        ;
                    }
                }
                false
            },
        }
    } else {
        false
    }
}

/// The runtime test of whether one of the column's buffers lives at `x`.
#[verifier::loop_isolation(false)]
pub fn column_has_addr(array: &ColumnArray, x: usize) -> (r: bool)
    ensures
        r == array@.has_addr(x),
{
    proof {
        assert forall|j: int| 0 <= j < array.buffers@.len() implies #[trigger] array@.buffers[j]
            == array.buffers@[j]@ by {
            assert(array@.buffers[j] == array.buffers@.map_values(|b: Buffer| b@)[j]);
        }
    }
    match &array.nulls {
        Some(b) => {
            if b.addr == x {
                return true;
            }
        },
        None => {},
    }
    let n: usize = array.buffers.len();
    let mut i: usize = 0;
    while i < n
        invariant
            i <= n,
            forall|j: int| 0 <= j < i ==> (#[trigger] array@.buffers[j]).addr != x,
        decreases n - i,
    {
        if array.buffers[i].addr == x {
            proof {
                assert(array@.buffers[i as int].addr == x);
            }
            return true;
        }
        i = i + 1;
    }
    false
}

/// The runtime test of whether no two of the column's buffers share an
/// address.
#[verifier::loop_isolation(false)]
pub fn column_addrs_distinct(array: &ColumnArray) -> (r: bool)
    ensures
        r == array@.addrs_distinct(),
{
    proof {
        assert forall|j: int| 0 <= j < array.buffers@.len() implies #[trigger] array@.buffers[j]
            == array.buffers@[j]@ by {
            assert(array@.buffers[j] == array.buffers@.map_values(|b: Buffer| b@)[j]);
        }
    }
    let n: usize = array.buffers.len();
    let mut i: usize = 0;
    while i < n
        invariant
            i <= n,
            forall|p: int, q: int|
                0 <= p < q < n && p < i ==> (#[trigger] array@.buffers[p]).addr != (
                #[trigger] array@.buffers[q]).addr,
        decreases n - i,
    {
        let mut j: usize = i + 1;
        while j < n
            invariant
                i < j <= n,
                i < n,
                forall|q: int|
                    i < q < j ==> array@.buffers[i as int].addr != (
                    #[trigger] array@.buffers[q]).addr,
            decreases n - j,
        {
            if array.buffers[i].addr == array.buffers[j].addr {
                proof {
                    assert(array@.buffers[i as int].addr == array@.buffers[j as int].addr);
                }
                return false;
            }
            j = j + 1;
        }
        i = i + 1;
    }
    match &array.nulls {
        Some(nb) => {
            let mut i: usize = 0;
            while i < n
                invariant
                    i <= n,
                    forall|q: int|
                        0 <= q < i ==> (#[trigger] array@.buffers[q]).addr != array@.nulls->Some_0.addr,
                decreases n - i,
            {
                if array.buffers[i].addr == nb.addr {
                    proof {
                        assert(array@.buffers[i as int].addr == array@.nulls->Some_0.addr);
                    }
                    return false;
                }
                i = i + 1;
            }
        },
        None => {},
    }
    true
}

/// The runtime test of whether two columns share no buffer address, so an
/// embedding can check the single-owner rule across the columns it hands to
/// one call.
#[verifier::loop_isolation(false)]
pub fn columns_disjoint(a: &ColumnArray, b: &ColumnArray) -> (r: bool)
    ensures
        r == (forall|x: usize| !(a@.has_addr(x) && b@.has_addr(x))),
{
    proof {
        assert forall|j: int| 0 <= j < a.buffers@.len() implies #[trigger] a@.buffers[j]
            == a.buffers@[j]@ by {
            assert(a@.buffers[j] == a.buffers@.map_values(|bf: Buffer| bf@)[j]);
        }
    }
    match &a.nulls {
        Some(nb) => {
            if column_has_addr(b, nb.addr) {
                proof {
                    assert(a@.has_addr(a@.nulls->Some_0.addr));
                }
                return false;
            }
        },
        None => {},
    }
    let n: usize = a.buffers.len();
    let mut i: usize = 0;
    while i < n
        invariant
            i <= n,
            forall|j: int| 0 <= j < i ==> !b@.has_addr((#[trigger] a@.buffers[j]).addr),
            a@.nulls matches Some(nb) ==> !b@.has_addr(nb.addr),
        decreases n - i,
    {
        if column_has_addr(b, a.buffers[i].addr) {
            proof {
                assert(a@.has_addr(a@.buffers[i as int].addr));
            }
            return false;
        }
        i = i + 1;
    }
    proof {
        assert forall|x: usize| !(a@.has_addr(x) && b@.has_addr(x)) by {
            if a@.has_addr(x) && b@.has_addr(x) {
                if a@.nulls matches Some(nb) && nb.addr == x {
                    assert(false);
                } else {
                    let j = choose|j: int| 0 <= j < a@.buffers.len() && a@.buffers[j].addr == x;
                    assert(!b@.has_addr(a@.buffers[j].addr));
                    assert(false);
                }
            }
        }
    }
    true
}

/// Law: the codec round-trips. For every well-formed column of a supported
/// type — any length, any null pattern — encoding yields a foreign array
/// that decodes, and it decodes to the very same column: same type, same
/// length, same null positions, same buffers.
pub proof fn lemma_array_round_trip(a: ArrayModel)
    requires
        a.wf(),
        call_of_tag(a.tag) is Some,
    ensures
        spec_encode(a) is Some,
        decode_ok(spec_encode(a)->Some_0),
        spec_decoded(spec_encode(a)->Some_0, tag_of_call(call_of_tag(a.tag)->Some_0)->Some_0)
            == a,
{
    let fa = spec_encode(a)->Some_0;
    crate::types::lemma_type_mapping_round_trip(a.tag);
    assert(fa.buffers.len() == 1 + a.buffers.len());
    assert(decode_present(fa)) by {
        assert forall|i: int| 1 <= i < fa.buffers.len() implies fa.buffers[i] is Some by {
            assert(fa.buffers[i] == a.buffers.map_values(|b: BufferModel| Some(b))[i - 1]);
        }
    }
    let d = spec_decoded(fa, a.tag);
    assert(d.buffers =~= a.buffers) by {
        assert forall|i: int| 0 <= i < d.buffers.len() implies d.buffers[i] == a.buffers[i] by {
            assert(fa.buffers[i + 1] == a.buffers.map_values(|b: BufferModel| Some(b))[i]);
        }
    }
    assert(d =~= a);
}

/// Law: encoding is zero-copy. The foreign array's buffer list holds the
/// column's own buffers — the validity bitmap in slot 0, the value buffers
/// after it, each with the address and the bytes of the native buffer it
/// came from; no new buffer is made.
pub proof fn lemma_encode_zero_copy(a: ArrayModel)
    requires
        call_of_tag(a.tag) is Some,
    ensures
        spec_encode(a) is Some,
        spec_encode(a)->Some_0.buffers[0] == a.nulls,
        spec_encode(a)->Some_0.buffers.len() == 1 + a.buffers.len(),
        forall|i: int|
            0 <= i < a.buffers.len() ==> spec_encode(a)->Some_0.buffers[i + 1] == Some(
                a.buffers[i],
            ),
{
    let fa = spec_encode(a)->Some_0;
    assert forall|i: int| 0 <= i < a.buffers.len() implies fa.buffers[i + 1] == Some(
        a.buffers[i],
    ) by {
        assert(fa.buffers[i + 1] == a.buffers.map_values(|b: BufferModel| Some(b))[i]);
    }
}

} // verus!
