//! The batch codec: an ordered set of named, equal-length columns, encoded
//! per field in schema order, and assembled from host-supplied columnar
//! data after validation.
//!
//! Decoding a host batch maps each foreign type identifier through the type
//! mapper, decodes each column through the array codec, checks every column
//! against its field's type, and accepts only equal-length columns; a
//! result set is encoded batch by batch, all of them.

use vstd::prelude::*;

use crate::array::{decode_ok, spec_decoded, spec_encode, to_py_array, to_rust};
use crate::array::{ArrayModel, ColumnArray, ForeignArray, ForeignArrayModel};
use crate::buffer::TransferLedger;
use crate::errors::DataFusionError;
use crate::types::{call_of_tag, data_type_id, spec_id_message, tag_of_call, tag_of_id, TypeTag};

verus! {

/// One schema field: a name, a type, and whether nulls are allowed.
#[derive(Debug, PartialEq, Eq)]
pub struct Field {
    pub name: String,
    pub data_type: TypeTag,
    pub nullable: bool,
}

/// The mathematical value of a schema field.
#[verifier::ext_equal]
pub ghost struct FieldModel {
    pub name: Seq<char>,
    pub data_type: TypeTag,
    pub nullable: bool,
}

impl View for Field {
    type V = FieldModel;

    open spec fn view(&self) -> FieldModel {
        FieldModel { name: self.name@, data_type: self.data_type, nullable: self.nullable }
    }
}

/// An ordered sequence of fields.
#[derive(Debug, PartialEq, Eq)]
pub struct Schema {
    pub fields: Vec<Field>,
}

impl View for Schema {
    type V = Seq<FieldModel>;

    open spec fn view(&self) -> Seq<FieldModel> {
        self.fields@.map_values(|f: Field| f@)
    }
}

/// A record batch: a schema and one column per field, all of equal length.
#[derive(Debug, PartialEq, Eq)]
pub struct RecordBatch {
    pub schema: Schema,
    pub columns: Vec<ColumnArray>,
}

/// The mathematical value of a record batch.
#[verifier::ext_equal]
pub ghost struct BatchModel {
    pub schema: Seq<FieldModel>,
    pub columns: Seq<ArrayModel>,
}

impl View for RecordBatch {
    type V = BatchModel;

    open spec fn view(&self) -> BatchModel {
        BatchModel {
            schema: self.schema@,
            columns: self.columns@.map_values(|c: ColumnArray| c@),
        }
    }
}

impl BatchModel {
    /// The common length of the batch's columns.
    pub open spec fn num_rows(self) -> usize {
        if self.columns.len() == 0 {
            0
        } else {
            self.columns[0].len
        }
    }

    /// A well-formed batch: one column per field, of the field's type, all
    /// well-formed and of one length.
    pub open spec fn wf(self) -> bool {
        &&& self.columns.len() == self.schema.len()
        &&& forall|i: int| 0 <= i < self.columns.len() ==> (#[trigger] self.columns[i]).wf()
        &&& forall|i: int|
            0 <= i < self.columns.len() ==> (#[trigger] self.columns[i]).tag
                == self.schema[i].data_type
        &&& forall|i: int|
            0 <= i < self.columns.len() ==> (#[trigger] self.columns[i]).len == self.num_rows()
    }

    /// Whether a buffer of one of the batch's columns lives at address `x`.
    pub open spec fn has_addr(self, x: usize) -> bool {
        exists|i: int| 0 <= i < self.columns.len() && (#[trigger] self.columns[i]).has_addr(x)
    }

    /// No two buffers anywhere in the batch share an address.
    pub open spec fn addrs_distinct(self) -> bool {
        &&& forall|i: int|
            0 <= i < self.columns.len() ==> (#[trigger] self.columns[i]).addrs_distinct()
        &&& forall|i: int, j: int, x: usize|
            0 <= i < j < self.columns.len() ==> !(#[trigger] self.columns[i].has_addr(x)
                && #[trigger] self.columns[j].has_addr(x))
    }
}

/// One field of a host batch's schema, as the host describes it: a name,
/// the nullable flag, and the foreign runtime's numeric type identifier.
#[derive(Debug, PartialEq, Eq)]
pub struct ForeignField {
    pub name: String,
    pub nullable: bool,
    pub type_id: i32,
}

/// The mathematical value of a host schema field.
#[verifier::ext_equal]
pub ghost struct ForeignFieldModel {
    pub name: Seq<char>,
    pub nullable: bool,
    pub type_id: i32,
}

impl View for ForeignField {
    type V = ForeignFieldModel;

    open spec fn view(&self) -> ForeignFieldModel {
        ForeignFieldModel { name: self.name@, nullable: self.nullable, type_id: self.type_id }
    }
}

/// A host batch: the host's description of each field, and one foreign
/// array per field.
#[derive(Debug, PartialEq, Eq)]
pub struct ForeignBatch {
    pub fields: Vec<ForeignField>,
    pub columns: Vec<ForeignArray>,
}

/// The mathematical value of a host batch.
#[verifier::ext_equal]
pub ghost struct ForeignBatchModel {
    pub fields: Seq<ForeignFieldModel>,
    pub columns: Seq<ForeignArrayModel>,
}

impl View for ForeignBatch {
    type V = ForeignBatchModel;

    open spec fn view(&self) -> ForeignBatchModel {
        ForeignBatchModel {
            fields: self.fields@.map_values(|f: ForeignField| f@),
            columns: self.columns@.map_values(|c: ForeignArray| c@),
        }
    }
}

impl ForeignBatchModel {
    /// One column per described field.
    pub open spec fn counts_ok(self) -> bool {
        self.fields.len() == self.columns.len()
    }

    /// Every field's type identifier is in the supported set.
    pub open spec fn fields_ok(self) -> bool {
        forall|i: int|
            0 <= i < self.fields.len() ==> tag_of_id((#[trigger] self.fields[i]).type_id as int) is Some
    }

    /// Every column decodes through the array codec.
    pub open spec fn columns_ok(self) -> bool {
        forall|i: int| 0 <= i < self.columns.len() ==> decode_ok(#[trigger] self.columns[i])
    }

    /// The column the host batch holds at position `i`, once validated.
    pub open spec fn column_at(self, i: int) -> ArrayModel {
        spec_decoded(self.columns[i], tag_of_call(self.columns[i].type_call)->Some_0)
    }

    /// Every column's type agrees with its field's declared identifier.
    pub open spec fn tags_ok(self) -> bool {
        forall|i: int|
            0 <= i < self.columns.len() ==> Some((#[trigger] self.column_at(i)).tag) == tag_of_id(
                self.fields[i].type_id as int,
            )
    }

    /// All columns share one length.
    pub open spec fn lengths_ok(self) -> bool {
        forall|i: int|
            0 <= i < self.columns.len() ==> (#[trigger] self.column_at(i)).len == self.column_at(
                0,
            ).len
    }

    /// Whether the host batch assembles into a record batch at all.
    pub open spec fn decodable(self) -> bool {
        self.counts_ok() && self.fields_ok() && self.columns_ok() && self.tags_ok()
            && self.lengths_ok()
    }
}

/// Builds a record batch from host-supplied columnar data: maps each
/// field's foreign type identifier, decodes each column through the array
/// codec, and assembles the batch only after validating that every column
/// has its field's type and that all columns have equal lengths. Columns of
/// unequal lengths yield `LengthMismatch`; a column whose type differs from
/// its field's, or a field count that differs from the column count, yields
/// `SchemaMismatch`.
#[verifier::loop_isolation(false)]
pub fn to_rust_batch(batch: ForeignBatch) -> (r: Result<RecordBatch, DataFusionError>)
    ensures
        match r {
            Ok(b) => {
                &&& batch@.decodable()
                &&& b@.schema.len() == batch@.fields.len()
                &&& b@.columns.len() == batch@.fields.len()
                &&& forall|i: int|
                    0 <= i < b@.schema.len() ==> {
                        &&& (#[trigger] b@.schema[i]).name == batch@.fields[i].name
                        &&& b@.schema[i].nullable == batch@.fields[i].nullable
                        &&& Some(b@.schema[i].data_type) == tag_of_id(batch@.fields[i].type_id as int)
                    }
                &&& forall|i: int|
                    0 <= i < b@.columns.len() ==> #[trigger] b@.columns[i] == batch@.column_at(i)
                &&& b@.wf()
            },
            Err(e) => {
                &&& !batch@.decodable()
                &&& (batch@.counts_ok() && batch@.fields_ok() && batch@.columns_ok()
                    && batch@.tags_ok() && !batch@.lengths_ok()) ==> e
                    == DataFusionError::LengthMismatch
                &&& match e {
                    DataFusionError::SchemaMismatch => !batch@.counts_ok() || !batch@.tags_ok(),
                    DataFusionError::UnsupportedType(m) => (exists|i: int|
                        0 <= i < batch@.fields.len() && tag_of_id(
                            (#[trigger] batch@.fields[i]).type_id as int,
                        ) is None && m@ == spec_id_message(batch@.fields[i].type_id as int)) || (
                    exists|i: int|
                        0 <= i < batch@.columns.len() && tag_of_call(
                            (#[trigger] batch@.columns[i]).type_call,
                        ) is None),
                    DataFusionError::NullBufferMissing => !batch@.columns_ok(),
                    DataFusionError::LengthMismatch => !batch@.columns_ok()
                        || !batch@.lengths_ok(),
                    _ => false,
                }
            },
        },
{
    let ghost fb = batch@;
    if batch.fields.len() != batch.columns.len() {
        return Err(DataFusionError::SchemaMismatch);
    }
    let ForeignBatch { fields, columns } = batch;
    let n: usize = fields.len();
    proof {
        assert forall|i: int| 0 <= i < n implies fb.fields[i] == fields@[i]@ by {
            assert(fb.fields[i] == fields@.map_values(|f: ForeignField| f@)[i]);
        }
        assert forall|i: int| 0 <= i < n implies fb.columns[i] == columns@[i]@ by {
            assert(fb.columns[i] == columns@.map_values(|c: ForeignArray| c@)[i]);
        }
    }
    let mut fields_in = fields;
    let mut columns_in = columns;
    let mut fields_out: Vec<Field> = Vec::new();
    let mut columns_out: Vec<ColumnArray> = Vec::new();
    let mut num_rows: usize = 0;
    let mut i: usize = 0;
    while i < n
        invariant
            i <= n,
            fields_in@.len() == n - i,
            columns_in@.len() == n - i,
            forall|j: int| 0 <= j < n - i ==> #[trigger] fields_in@[j]@ == fb.fields[i + j],
            forall|j: int| 0 <= j < n - i ==> #[trigger] columns_in@[j]@ == fb.columns[i + j],
            fields_out@.len() == i,
            columns_out@.len() == i,
            forall|j: int|
                0 <= j < i ==> tag_of_id((#[trigger] fb.fields[j]).type_id as int) is Some,
            forall|j: int| 0 <= j < i ==> decode_ok(#[trigger] fb.columns[j]),
            forall|j: int|
                0 <= j < i ==> Some((#[trigger] fb.column_at(j)).tag) == tag_of_id(
                    fb.fields[j].type_id as int,
                ),
            forall|j: int| 0 <= j < i ==> (#[trigger] fb.column_at(j)).len == num_rows,
            forall|j: int|
                0 <= j < i ==> {
                    &&& (#[trigger] fields_out@[j])@.name == fb.fields[j].name
                    &&& fields_out@[j]@.nullable == fb.fields[j].nullable
                    &&& Some(fields_out@[j]@.data_type) == tag_of_id(fb.fields[j].type_id as int)
                },
            forall|j: int| 0 <= j < i ==> (#[trigger] columns_out@[j])@ == fb.column_at(j),
            forall|j: int| 0 <= j < i ==> (#[trigger] columns_out@[j])@.wf(),
            forall|j: int| 0 <= j < i ==> (#[trigger] columns_out@[j])@.len == num_rows,
            i > 0 ==> num_rows == fb.column_at(0).len,
        decreases n - i,
    {
        let ghost fields_pre = fields_in@;
        let ghost columns_pre = columns_in@;
        let ff = fields_in.remove(0);
        let fa = columns_in.remove(0);
        proof {
            assert(ff@ == fb.fields[i as int]);
            assert(fa@ == fb.columns[i as int]);
            assert forall|j: int| 0 <= j < n - i - 1 implies #[trigger] fields_in@[j]@
                == fb.fields[i + 1 + j] by {
                assert(fields_in@[j] == fields_pre[j + 1]);
            }
            assert forall|j: int|
                0 <= j < n - i - 1 implies #[trigger] columns_in@[j]@ == fb.columns[i + 1 + j] by {
                assert(columns_in@[j] == columns_pre[j + 1]);
            }
        }
        let tag: TypeTag = match data_type_id(ff.type_id) {
            Ok(t) => t,
            Err(e) => {
                proof {
                    assert(!fb.fields_ok());
                }
                return Err(e);
            },
        };
        let col: ColumnArray = match to_rust(fa) {
            Ok(c) => c,
            Err(e) => {
                proof {
                    assert(!fb.columns_ok());
                }
                return Err(e);
            },
        };
        if col.data_type != tag {
            proof {
                assert(Some(fb.column_at(i as int).tag) != tag_of_id(fb.fields[i as int].type_id as int));
                assert(!fb.tags_ok());
            }
            return Err(DataFusionError::SchemaMismatch);
        }
        if i == 0 {
            num_rows = col.len;
        } else if col.len != num_rows {
            proof {
                assert(fb.column_at(i as int).len != fb.column_at(0).len);
                assert(!fb.lengths_ok());
            }
            return Err(DataFusionError::LengthMismatch);
        }
        fields_out.push(Field { name: ff.name, data_type: tag, nullable: ff.nullable });
        columns_out.push(col);
        i = i + 1;
    }
    let result = RecordBatch { schema: Schema { fields: fields_out }, columns: columns_out };
    proof {
        assert(fb.fields_ok()) by {
            assert forall|j: int| 0 <= j < fb.fields.len() implies tag_of_id(
                (#[trigger] fb.fields[j]).type_id as int,
            ) is Some by {}
        }
        assert(fb.columns_ok()) by {
            assert forall|j: int| 0 <= j < fb.columns.len() implies decode_ok(
                #[trigger] fb.columns[j],
            ) by {}
        }
        assert(fb.tags_ok()) by {
            assert forall|j: int| 0 <= j < fb.columns.len() implies Some(
                (#[trigger] fb.column_at(j)).tag,
            ) == tag_of_id(fb.fields[j].type_id as int) by {}
        }
        assert(fb.lengths_ok()) by {
            assert forall|j: int| 0 <= j < fb.columns.len() implies (
            #[trigger] fb.column_at(j)).len == fb.column_at(0).len by {
                assert(fb.column_at(j).len == num_rows);
            }
        }
        assert forall|j: int| 0 <= j < n implies #[trigger] result@.schema[j]
            == fields_out@[j]@ by {
            assert(result@.schema[j] == fields_out@.map_values(|f: Field| f@)[j]);
        }
        assert forall|j: int| 0 <= j < n implies #[trigger] result@.columns[j]
            == columns_out@[j]@ by {
            assert(result@.columns[j] == columns_out@.map_values(|c: ColumnArray| c@)[j]);
        }
        assert(result@.wf()) by {
            assert(result@.num_rows() == num_rows || n == 0);
        }
    }
    Ok(result)
}

/// Encodes a record batch for the host: one `(field name, foreign array)`
/// pair per field, in schema order, every column handed over zero-copy
/// through the ledger. Every column's type is checked against the supported
/// set before any buffer changes hands, so a failed batch transfers
/// nothing.
#[verifier::loop_isolation(false)]
pub fn to_py_batch(batch: RecordBatch, ledger: &mut TransferLedger) -> (r: Result<
    Vec<(String, ForeignArray)>,
    DataFusionError,
>)
    requires
        old(ledger).wf(),
        batch@.wf(),
        batch@.addrs_distinct(),
        forall|x: usize| batch@.has_addr(x) ==> !old(ledger).transferred(x),
    ensures
        final(ledger).wf(),
        match r {
            Ok(v) => {
                &&& v@.len() == batch@.columns.len()
                &&& forall|i: int|
                    0 <= i < v@.len() ==> (#[trigger] v@[i]).0@ == batch@.schema[i].name
                &&& forall|i: int|
                    0 <= i < v@.len() ==> Some((#[trigger] v@[i]).1@) == spec_encode(
                        batch@.columns[i],
                    )
                &&& forall|x: usize|
                    final(ledger).transferred(x) == (old(ledger).transferred(x)
                        || batch@.has_addr(x))
                &&& forall|x: usize|
                    final(ledger).live(x) == (old(ledger).live(x) || batch@.has_addr(x))
            },
            Err(e) => {
                &&& e matches DataFusionError::UnsupportedType(_)
                &&& exists|i: int|
                    0 <= i < batch@.columns.len() && call_of_tag(
                        (#[trigger] batch@.columns[i]).tag,
                    ) is None
                &&& final(ledger)@ == old(ledger)@
            },
        },
{
    let ghost bm = batch@;
    let RecordBatch { schema, columns } = batch;
    let n: usize = columns.len();
    proof {
        assert forall|i: int| 0 <= i < n implies bm.columns[i] == columns@[i]@ by {
            assert(bm.columns[i] == columns@.map_values(|c: ColumnArray| c@)[i]);
        }
        assert forall|i: int| 0 <= i < n implies bm.schema[i] == schema.fields@[i]@ by {
            assert(bm.schema[i] == schema.fields@.map_values(|f: Field| f@)[i]);
        }
    }
    // validate every column's type before the first transfer
    let mut i: usize = 0;
    while i < n
        invariant
            i <= n,
            forall|j: int| 0 <= j < i ==> call_of_tag((#[trigger] bm.columns[j]).tag) is Some,
        decreases n - i,
    {
        match crate::types::type_to_type(&columns[i].data_type) {
            Ok(_) => {},
            Err(e) => {
                proof {
                    assert(call_of_tag(bm.columns[i as int].tag) is None);
                }
                return Err(e);
            },
        }
        i = i + 1;
    }
    let mut fields_in = schema.fields;
    let mut columns_in = columns;
    let mut out: Vec<(String, ForeignArray)> = Vec::new();
    let mut k: usize = 0;
    while k < n
        invariant
            k <= n,
            ledger.wf(),
            fields_in@.len() == n - k,
            columns_in@.len() == n - k,
            forall|j: int| 0 <= j < n - k ==> #[trigger] fields_in@[j]@ == bm.schema[k + j],
            forall|j: int| 0 <= j < n - k ==> #[trigger] columns_in@[j]@ == bm.columns[k + j],
            out@.len() == k,
            forall|j: int| 0 <= j < k ==> (#[trigger] out@[j]).0@ == bm.schema[j].name,
            forall|j: int| 0 <= j < k ==> Some((#[trigger] out@[j]).1@) == spec_encode(bm.columns[j]),
            forall|x: usize|
                ledger.transferred(x) == (old(ledger).transferred(x) || exists|j: int|
                    0 <= j < k && (#[trigger] bm.columns[j]).has_addr(x)),
            forall|x: usize|
                ledger.live(x) == (old(ledger).live(x) || exists|j: int|
                    0 <= j < k && (#[trigger] bm.columns[j]).has_addr(x)),
        decreases n - k,
    {
        let ghost fields_pre = fields_in@;
        let ghost columns_pre = columns_in@;
        let f = fields_in.remove(0);
        let col = columns_in.remove(0);
        proof {
            assert(f@ == bm.schema[k as int]);
            assert(col@ == bm.columns[k as int]);
            assert forall|j: int| 0 <= j < n - k - 1 implies #[trigger] fields_in@[j]@
                == bm.schema[k + 1 + j] by {
                assert(fields_in@[j] == fields_pre[j + 1]);
            }
            assert forall|j: int|
                0 <= j < n - k - 1 implies #[trigger] columns_in@[j]@ == bm.columns[k + 1 + j] by {
                assert(columns_in@[j] == columns_pre[j + 1]);
            }
            assert forall|x: usize| col@.has_addr(x) implies !ledger.transferred(x) by {
                assert(bm.has_addr(x)) by {
                    assert(bm.columns[k as int].has_addr(x));
                }
                if exists|j: int| 0 <= j < k && (#[trigger] bm.columns[j]).has_addr(x) {
                    let j = choose|j: int| 0 <= j < k && (#[trigger] bm.columns[j]).has_addr(x);
                    assert(false);
                }
            }
        }
        let fa = match to_py_array(col, ledger) {
            Ok(fa) => fa,
            Err(e) => {
                proof {
                    assert(call_of_tag(bm.columns[k as int].tag) is Some);
                    assert(false);
                }
                return Err(e);
            },
        };
        out.push((f.name, fa));
        k = k + 1;
        proof {
            assert forall|x: usize|
                ledger.transferred(x) == (old(ledger).transferred(x) || exists|j: int|
                    0 <= j < k && (#[trigger] bm.columns[j]).has_addr(x)) by {
                if bm.columns[k - 1].has_addr(x) {
                    assert(0 <= k - 1 < k && bm.columns[k - 1].has_addr(x));
                }
            }
            assert forall|x: usize|
                ledger.live(x) == (old(ledger).live(x) || exists|j: int|
                    0 <= j < k && (#[trigger] bm.columns[j]).has_addr(x)) by {
                if bm.columns[k - 1].has_addr(x) {
                    assert(0 <= k - 1 < k && bm.columns[k - 1].has_addr(x));
                }
            }
        }
    }
    proof {
        assert forall|x: usize|
            ledger.transferred(x) == (old(ledger).transferred(x) || bm.has_addr(x)) by {
            if exists|j: int| 0 <= j < k && (#[trigger] bm.columns[j]).has_addr(x) {
                let j = choose|j: int| 0 <= j < k && (#[trigger] bm.columns[j]).has_addr(x);
                assert(bm.has_addr(x));
            }
        }
        assert forall|x: usize| ledger.live(x) == (old(ledger).live(x) || bm.has_addr(x)) by {
            if exists|j: int| 0 <= j < k && (#[trigger] bm.columns[j]).has_addr(x) {
                let j = choose|j: int| 0 <= j < k && (#[trigger] bm.columns[j]).has_addr(x);
                assert(bm.has_addr(x));
            }
        }
    }
    Ok(out)
}

/// Encodes a whole result set for the host: every batch, in order, each as
/// its list of `(field name, foreign array)` pairs. A multi-batch result is
/// never truncated to its first batch. Every column of every batch is
/// checked against the supported set before the first transfer, so a failed
/// result set transfers nothing.
#[verifier::loop_isolation(false)]
pub fn to_py(batches: Vec<RecordBatch>, ledger: &mut TransferLedger) -> (r: Result<
    Vec<Vec<(String, ForeignArray)>>,
    DataFusionError,
>)
    requires
        old(ledger).wf(),
        forall|b: int| 0 <= b < batches@.len() ==> (#[trigger] batches@[b]@).wf(),
        forall|b: int| 0 <= b < batches@.len() ==> (#[trigger] batches@[b]@).addrs_distinct(),
        forall|b: int, x: usize|
            0 <= b < batches@.len() && #[trigger] batches@[b]@.has_addr(x) ==> !old(
                ledger,
            ).transferred(x),
        forall|b1: int, b2: int, x: usize|
            0 <= b1 < b2 < batches@.len() ==> !(#[trigger] batches@[b1]@.has_addr(x)
                && #[trigger] batches@[b2]@.has_addr(x)),
    ensures
        final(ledger).wf(),
        match r {
            Ok(v) => {
                &&& v@.len() == batches@.len()
                &&& forall|b: int|
                    0 <= b < v@.len() ==> (#[trigger] v@[b])@.len() == batches@[b]@.columns.len()
                &&& forall|b: int, i: int|
                    0 <= b < v@.len() && 0 <= i < v@[b]@.len() ==> (#[trigger] v@[b]@[i]).0@
                        == batches@[b]@.schema[i].name
                &&& forall|b: int, i: int|
                    0 <= b < v@.len() && 0 <= i < v@[b]@.len() ==> Some((#[trigger] v@[b]@[i]).1@)
                        == spec_encode(batches@[b]@.columns[i])
                &&& forall|x: usize|
                    final(ledger).transferred(x) == (old(ledger).transferred(x) || exists|b: int|
                        0 <= b < batches@.len() && #[trigger] batches@[b]@.has_addr(x))
                &&& forall|x: usize|
                    final(ledger).live(x) == (old(ledger).live(x) || exists|b: int|
                        0 <= b < batches@.len() && #[trigger] batches@[b]@.has_addr(x))
            },
            Err(e) => {
                &&& e matches DataFusionError::UnsupportedType(_)
                &&& exists|b: int, i: int|
                    0 <= b < batches@.len() && 0 <= i < batches@[b]@.columns.len() && call_of_tag(
                        (#[trigger] batches@[b]@.columns[i]).tag,
                    ) is None
                &&& final(ledger)@ == old(ledger)@
            },
        },
{
    let ghost bs = batches@;
    let n: usize = batches.len();
    // validate every column of every batch before the first transfer
    let mut b: usize = 0;
    while b < n
        invariant
            b <= n,
            forall|b2: int, i: int|
                0 <= b2 < b && 0 <= i < bs[b2]@.columns.len() ==> call_of_tag(
                    (#[trigger] bs[b2]@.columns[i]).tag,
                ) is Some,
        decreases n - b,
    {
        let m: usize = batches[b].columns.len();
        let mut i: usize = 0;
        while i < m
            invariant
                b < n,
                i <= m,
                m == bs[b as int]@.columns.len(),
                forall|i2: int|
                    0 <= i2 < i ==> call_of_tag(
                        (#[trigger] bs[b as int]@.columns[i2]).tag,
                    ) is Some,
            decreases m - i,
        {
            proof {
                assert(bs[b as int]@.columns[i as int] == batches@[b as int].columns@[i as int]@);
            }
            match crate::types::type_to_type(&batches[b].columns[i].data_type) {
                Ok(_) => {},
                Err(e) => {
                    proof {
                        assert(call_of_tag(bs[b as int]@.columns[i as int].tag) is None);
                    }
                    return Err(e);
                },
            }
            i = i + 1;
        }
        b = b + 1;
    }
    let mut batches_in = batches;
    let mut out: Vec<Vec<(String, ForeignArray)>> = Vec::new();
    let mut k: usize = 0;
    while k < n
        invariant
            k <= n,
            ledger.wf(),
            batches_in@.len() == n - k,
            forall|j: int| 0 <= j < n - k ==> #[trigger] batches_in@[j] == bs[k + j],
            out@.len() == k,
            forall|j: int| 0 <= j < k ==> (#[trigger] out@[j])@.len() == bs[j]@.columns.len(),
            forall|j: int, i: int|
                0 <= j < k && 0 <= i < out@[j]@.len() ==> (#[trigger] out@[j]@[i]).0@
                    == bs[j]@.schema[i].name,
            forall|j: int, i: int|
                0 <= j < k && 0 <= i < out@[j]@.len() ==> Some((#[trigger] out@[j]@[i]).1@)
                    == spec_encode(bs[j]@.columns[i]),
            forall|x: usize|
                ledger.transferred(x) == (old(ledger).transferred(x) || exists|j: int|
                    0 <= j < k && #[trigger] bs[j]@.has_addr(x)),
            forall|x: usize|
                ledger.live(x) == (old(ledger).live(x) || exists|j: int|
                    0 <= j < k && #[trigger] bs[j]@.has_addr(x)),
        decreases n - k,
    {
        let ghost batches_pre = batches_in@;
        let one = batches_in.remove(0);
        proof {
            assert(one == bs[k as int]);
            assert forall|j: int| 0 <= j < n - k - 1 implies #[trigger] batches_in@[j] == bs[k + 1
                + j] by {
                assert(batches_in@[j] == batches_pre[j + 1]);
            }
            assert forall|x: usize| one@.has_addr(x) implies !ledger.transferred(x) by {
                assert(bs[k as int]@.has_addr(x));
                if exists|j: int| 0 <= j < k && #[trigger] bs[j]@.has_addr(x) {
                    let j = choose|j: int| 0 <= j < k && #[trigger] bs[j]@.has_addr(x);
                    assert(false);
                }
            }
        }
        let encoded = match to_py_batch(one, ledger) {
            Ok(v) => v,
            Err(e) => {
                proof {
                    let i = choose|i: int|
                        0 <= i < bs[k as int]@.columns.len() && call_of_tag(
                            (#[trigger] bs[k as int]@.columns[i]).tag,
                        ) is None;
                    assert(call_of_tag(bs[k as int]@.columns[i].tag) is Some);
                    assert(false);
                }
                return Err(e);
            },
        };
        out.push(encoded);
        k = k + 1;
        proof {
            assert forall|x: usize|
                ledger.transferred(x) == (old(ledger).transferred(x) || exists|j: int|
                    0 <= j < k && #[trigger] bs[j]@.has_addr(x)) by {
                if bs[k - 1]@.has_addr(x) {
                    assert(0 <= k - 1 < k && bs[k - 1]@.has_addr(x));
                }
            }
            assert forall|x: usize|
                ledger.live(x) == (old(ledger).live(x) || exists|j: int|
                    0 <= j < k && #[trigger] bs[j]@.has_addr(x)) by {
                if bs[k - 1]@.has_addr(x) {
                    assert(0 <= k - 1 < k && bs[k - 1]@.has_addr(x));
                }
            }
        }
    }
    Ok(out)
}

} // verus!
