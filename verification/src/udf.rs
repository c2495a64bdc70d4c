//! The scalar-function bridge: a host callable, its declared signature, and
//! the two calling conventions the engine can invoke it by.
//!
//! Registration maps user-facing type names to tags and rejects anything
//! outside the supported set by name. The vectorized convention encodes
//! whole argument columns — zero copy, one crossing per batch — and decodes
//! the callable's single column result. The row-wise convention hands the
//! callable one tuple of scalars per row, with nulls as the missing
//! sentinel, and collects its per-row results into the output column. The
//! crossings themselves — invoking the callable under the foreign runtime's
//! exclusive-access guard — happen outside; the bridge prepares what goes
//! over and validates what comes back, and a call failure on any row aborts
//! the whole batch.

use vstd::prelude::*;

use crate::array::{spec_encode, to_arrow, to_py_array, ArrayModel, ColumnArray, ForeignArray};
use crate::array::{decode_count_ok, decode_ok, decode_present, spec_decoded};
use crate::buffer::TransferLedger;
use crate::errors::DataFusionError;
use crate::scalar::{get_cell, row_type_supported, scalar_fits, spec_cell};
use crate::scalar::{ForeignScalar, ScalarBuilder};
use crate::types::{call_of_tag, data_type, tag_of_call, tag_of_name, TypeTag};

verus! {

/// A registered scalar-function signature: a name, the declared input
/// types, and the declared output type.
#[derive(Debug, PartialEq, Eq)]
pub struct UdfSignature {
    pub name: String,
    pub input_types: Vec<TypeTag>,
    pub return_type: TypeTag,
}

/// Binds a name and user-facing type names into a scalar-function
/// signature. Every name must be in the supported set; an unknown name —
/// "Decimal", say — is rejected as `UnsupportedType`, echoing the name, and
/// never panics.
#[verifier::loop_isolation(false)]
pub fn create_udf(name: &str, input_types: &Vec<&str>, return_type: &str) -> (r: Result<
    UdfSignature,
    DataFusionError,
>)
    ensures
        match r {
            Ok(sig) => {
                &&& sig.name@ == name@
                &&& sig.input_types@.len() == input_types@.len()
                &&& forall|i: int|
                    0 <= i < input_types@.len() ==> Some(#[trigger] sig.input_types@[i])
                        == tag_of_name(input_types@[i]@)
                &&& Some(sig.return_type) == tag_of_name(return_type@)
            },
            Err(e) => {
                &&& e matches DataFusionError::UnsupportedType(m) && ((exists|i: int|
                    0 <= i < input_types@.len() && tag_of_name(#[trigger] input_types@[i]@) is None
                        && m@ == input_types@[i]@) || (tag_of_name(return_type@) is None && m@
                    == return_type@))
            },
        },
{
    let n: usize = input_types.len();
    let mut tags: Vec<TypeTag> = Vec::new();
    let mut i: usize = 0;
    while i < n
        invariant
            i <= n,
            tags@.len() == i,
            forall|j: int|
                0 <= j < i ==> Some(#[trigger] tags@[j]) == tag_of_name(input_types@[j]@),
        decreases n - i,
    {
        match data_type(input_types[i]) {
            Ok(t) => {
                tags.push(t);
            },
            Err(e) => {
                return Err(e);
            },
        }
        i = i + 1;
    }
    let ret: TypeTag = match data_type(return_type) {
        Ok(t) => t,
        Err(e) => {
            return Err(e);
        },
    };
    Ok(UdfSignature { name: name.to_owned(), input_types: tags, return_type: ret })
}

/// The outcome of one vectorized crossing into the host: the callable
/// returned a foreign array, or it raised, with the message.
#[derive(Debug)]
pub enum CallOutcome {
    Returned(ForeignArray),
    Raised(String),
}

/// A vectorized scalar function: the host callable receives whole argument
/// columns as foreign arrays, once per batch.
#[derive(Debug)]
pub struct ArrayUdf {
    pub input_types: Vec<TypeTag>,
    pub return_type: TypeTag,
}

/// Declares a vectorized scalar function over the given signature.
pub fn array_udf(input_types: Vec<TypeTag>, return_type: TypeTag) -> (r: ArrayUdf)
    ensures
        r.input_types@ == input_types@,
        r.return_type == return_type,
{
    ArrayUdf { input_types, return_type }
}

impl ArrayUdf {
    /// Encodes the argument columns for one vectorized call: one foreign
    /// array per argument, zero copy, every buffer handed over through the
    /// ledger. The argument count is checked against the declared
    /// signature, and every column's type against the supported set,
    /// before the first transfer; a failed call transfers nothing.
    #[verifier::loop_isolation(false)]
    pub fn encode_args(&self, args: Vec<ColumnArray>, ledger: &mut TransferLedger) -> (r: Result<
        Vec<ForeignArray>,
        DataFusionError,
    >)
        requires
            old(ledger).wf(),
            forall|i: int| 0 <= i < args@.len() ==> (#[trigger] args@[i]@).wf(),
            forall|i: int| 0 <= i < args@.len() ==> (#[trigger] args@[i]@).addrs_distinct(),
            forall|i: int, x: usize|
                0 <= i < args@.len() && #[trigger] args@[i]@.has_addr(x) ==> !old(
                    ledger,
                ).transferred(x),
            forall|i: int, j: int, x: usize|
                0 <= i < j < args@.len() ==> !(#[trigger] args@[i]@.has_addr(x)
                    && #[trigger] args@[j]@.has_addr(x)),
        ensures
            final(ledger).wf(),
            match r {
                Ok(v) => {
                    &&& args@.len() == self.input_types@.len()
                    &&& v@.len() == args@.len()
                    &&& forall|i: int|
                        0 <= i < v@.len() ==> Some((#[trigger] v@[i])@) == spec_encode(args@[i]@)
                    &&& forall|x: usize|
                        final(ledger).transferred(x) == (old(ledger).transferred(x) || exists|
                            i: int,
                        | 0 <= i < args@.len() && #[trigger] args@[i]@.has_addr(x))
                    &&& forall|x: usize|
                        final(ledger).live(x) == (old(ledger).live(x) || exists|i: int|
                            0 <= i < args@.len() && #[trigger] args@[i]@.has_addr(x))
                },
                Err(e) => {
                    &&& final(ledger)@ == old(ledger)@
                    &&& match e {
                        DataFusionError::SchemaMismatch => args@.len() != self.input_types@.len(),
                        DataFusionError::UnsupportedType(_) => exists|i: int|
                            0 <= i < args@.len() && call_of_tag(
                                (#[trigger] args@[i]@).tag,
                            ) is None,
                        _ => false,
                    }
                },
            },
    {
        let ghost am = args@.map_values(|c: ColumnArray| c@);
        let n: usize = args.len();
        if n != self.input_types.len() {
            return Err(DataFusionError::SchemaMismatch);
        }
        proof {
            assert forall|i: int| 0 <= i < n implies #[trigger] args@[i]@ == am[i] by {}
        }
        // validate every argument's type before the first transfer
        let mut i: usize = 0;
        while i < n
            invariant
                i <= n,
                forall|j: int| 0 <= j < i ==> call_of_tag((#[trigger] am[j]).tag) is Some,
            decreases n - i,
        {
            match crate::types::type_to_type(&args[i].data_type) {
                Ok(_) => {},
                Err(e) => {
                    proof {
                        assert(call_of_tag(am[i as int].tag) is None);
                    }
                    return Err(e);
                },
            }
            i = i + 1;
        }
        let mut args_in = args;
        let mut out: Vec<ForeignArray> = Vec::new();
        let mut k: usize = 0;
        while k < n
            invariant
                k <= n,
                ledger.wf(),
                args_in@.len() == n - k,
                forall|j: int| 0 <= j < n - k ==> (#[trigger] args_in@[j])@ == am[k + j],
                out@.len() == k,
                forall|j: int| 0 <= j < k ==> Some((#[trigger] out@[j])@) == spec_encode(am[j]),
                forall|x: usize|
                    ledger.transferred(x) == (old(ledger).transferred(x) || exists|j: int|
                        0 <= j < k && (#[trigger] am[j]).has_addr(x)),
                forall|x: usize|
                    ledger.live(x) == (old(ledger).live(x) || exists|j: int|
                        0 <= j < k && (#[trigger] am[j]).has_addr(x)),
            decreases n - k,
        {
            let ghost args_pre = args_in@;
            let col = args_in.remove(0);
            proof {
                assert(col@ == am[k as int]);
                assert forall|j: int| 0 <= j < n - k - 1 implies (#[trigger] args_in@[j])@ == am[k
                    + 1 + j] by {
                    assert(args_in@[j] == args_pre[j + 1]);
                }
                assert forall|x: usize| col@.has_addr(x) implies !ledger.transferred(x) by {
                    assert(args@[k as int]@.has_addr(x));
                    if exists|j: int| 0 <= j < k && (#[trigger] am[j]).has_addr(x) {
                        let j = choose|j: int| 0 <= j < k && (#[trigger] am[j]).has_addr(x);
                        assert(args@[j]@.has_addr(x));
                        assert(false);
                    }
                }
            }
            let fa = match to_py_array(col, ledger) {
                Ok(fa) => fa,
                Err(e) => {
                    proof {
                        assert(call_of_tag(am[k as int].tag) is Some);
                        assert(false);
                    }
                    return Err(e);
                },
            };
            out.push(fa);
            k = k + 1;
            proof {
                assert forall|x: usize|
                    ledger.transferred(x) == (old(ledger).transferred(x) || exists|j: int|
                        0 <= j < k && (#[trigger] am[j]).has_addr(x)) by {
                    if am[k - 1].has_addr(x) {
                        assert(0 <= k - 1 < k && am[k - 1].has_addr(x));
                    }
                }
                assert forall|x: usize|
                    ledger.live(x) == (old(ledger).live(x) || exists|j: int|
                        0 <= j < k && (#[trigger] am[j]).has_addr(x)) by {
                    if am[k - 1].has_addr(x) {
                        assert(0 <= k - 1 < k && am[k - 1].has_addr(x));
                    }
                }
            }
        }
        Ok(out)
    }

    /// Validates what came back from one vectorized crossing: a raised
    /// exception aborts the batch as `ForeignCallFailure`, and so does a
    /// returned column of a type other than the declared one; a returned
    /// foreign array must decode through the array codec.
    pub fn decode_result(&self, outcome: CallOutcome) -> (r: Result<ColumnArray, DataFusionError>)
        ensures
            match outcome {
                CallOutcome::Raised(m) => r matches Err(DataFusionError::ForeignCallFailure(m2))
                    && m2@ == m@,
                CallOutcome::Returned(fa) => match r {
                    Ok(a) => {
                        &&& tag_of_call(fa@.type_call) == Some(self.return_type)
                        &&& decode_ok(fa@)
                        &&& a@ == spec_decoded(fa@, self.return_type)
                        &&& a@.wf()
                    },
                    Err(e) => match e {
                        DataFusionError::UnsupportedType(_) => tag_of_call(fa@.type_call) is None,
                        DataFusionError::ForeignCallFailure(_) => tag_of_call(fa@.type_call)
                            matches Some(t) && t != self.return_type,
                        DataFusionError::NullBufferMissing => tag_of_call(fa@.type_call) == Some(
                            self.return_type,
                        ) && decode_count_ok(fa@, self.return_type) && !decode_present(fa@),
                        DataFusionError::LengthMismatch => tag_of_call(fa@.type_call) == Some(
                            self.return_type,
                        ) && (!decode_count_ok(fa@, self.return_type) || (decode_present(fa@)
                            && !spec_decoded(fa@, self.return_type).wf())),
                        _ => false,
                    },
                },
            },
    {
        match outcome {
            CallOutcome::Raised(m) => Err(DataFusionError::ForeignCallFailure(m)),
            CallOutcome::Returned(fa) => match to_arrow(fa, &self.return_type) {
                Ok(a) => Ok(a),
                Err(e) => match e {
                    DataFusionError::SchemaMismatch => Err(
                        DataFusionError::ForeignCallFailure(
                            "the host callable returned a column of the wrong type".to_owned(),
                        ),
                    ),
                    other => Err(other),
                },
            },
        }
    }
}

/// A row-wise scalar function: the host callable receives one tuple of
/// scalars per row.
#[derive(Debug)]
pub struct RowUdf {
    pub input_types: Vec<TypeTag>,
    pub return_type: TypeTag,
}

/// Declares a row-wise scalar function over the given signature.
pub fn udf(input_types: Vec<TypeTag>, return_type: TypeTag) -> (r: RowUdf)
    ensures
        r.input_types@ == input_types@,
        r.return_type == return_type,
{
    RowUdf { input_types, return_type }
}

/// The outcome of one row-wise crossing into the host: the callable
/// returned a scalar, or it raised, with the message.
#[derive(Debug)]
pub enum ScalarOutcome {
    Returned(ForeignScalar),
    Raised(String),
}

/// One row-wise invocation over a batch of argument columns, row by row:
/// hand the host `next_row_args`, record what came back, finish into the
/// output column. A raised exception, or a scalar of the wrong type, aborts
/// the whole batch.
#[derive(Debug)]
pub struct RowUdfCall {
    args: Vec<ColumnArray>,
    builder: ScalarBuilder,
    next_row: usize,
    num_rows: usize,
}

/// The mathematical state of a row-wise invocation.
#[verifier::ext_equal]
pub ghost struct RowCallModel {
    pub args: Seq<ArrayModel>,
    pub out_tag: TypeTag,
    pub results: Seq<ForeignScalar>,
    pub next_row: usize,
    pub num_rows: usize,
}

impl View for RowUdfCall {
    type V = RowCallModel;

    closed spec fn view(&self) -> RowCallModel {
        RowCallModel {
            args: self.args@.map_values(|c: ColumnArray| c@),
            out_tag: self.builder@.tag,
            results: self.builder@.cells,
            next_row: self.next_row,
            num_rows: self.num_rows,
        }
    }
}

impl RowUdfCall {
    /// The state invariant: every argument column validated for row-wise
    /// access, one result collected per row handed out so far.
    pub closed spec fn inv(&self) -> bool {
        &&& self@.results.len() == self@.next_row
        &&& self@.next_row <= self@.num_rows
        &&& self.builder.wf()
        &&& row_type_supported(self@.out_tag)
        &&& forall|c: int| 0 <= c < self@.args.len() ==> (#[trigger] self@.args[c]).wf()
        &&& forall|c: int|
            0 <= c < self@.args.len() ==> row_type_supported((#[trigger] self@.args[c]).tag)
        &&& forall|c: int|
            0 <= c < self@.args.len() ==> (#[trigger] self@.args[c]).len == self@.num_rows
    }

    /// How many rows this invocation covers.
    pub fn num_rows(&self) -> (r: usize)
        ensures
            r == self@.num_rows,
    {
        self.num_rows
    }

    /// How many rows were already recorded.
    pub fn rows_done(&self) -> (r: usize)
        ensures
            r == self@.next_row,
    {
        self.next_row
    }

    /// The argument tuple for the next row: one scalar per argument column,
    /// the missing sentinel wherever the column is null at that row — the
    /// null element's value is never dereferenced. `None` once every row
    /// was handed out.
    pub fn next_row_args(&self) -> (r: Option<Vec<ForeignScalar>>)
        requires
            self.inv(),
        ensures
            match r {
                Some(v) => {
                    &&& self@.next_row < self@.num_rows
                    &&& v@.len() == self@.args.len()
                    &&& forall|c: int|
                        0 <= c < v@.len() ==> #[trigger] v@[c] == spec_cell(
                            self@.args[c],
                            self@.next_row as int,
                        )
                    &&& forall|c: int|
                        0 <= c < v@.len() && self@.args[c].null_at(self@.next_row as int)
                            ==> #[trigger] v@[c] == ForeignScalar::Missing
                },
                None => self@.next_row == self@.num_rows,
            },
    {
        if self.next_row >= self.num_rows {
            return None;
        }
        let n: usize = self.args.len();
        let mut v: Vec<ForeignScalar> = Vec::new();
        let mut c: usize = 0;
        while c < n
            invariant
                c <= n,
                n == self@.args.len(),
                self.inv(),
                self@.next_row < self@.num_rows,
                v@.len() == c,
                forall|j: int|
                    0 <= j < c ==> #[trigger] v@[j] == spec_cell(
                        self@.args[j],
                        self@.next_row as int,
                    ),
            decreases n - c,
        {
            proof {
                assert(self@.args[c as int] == self.args@.map_values(|x: ColumnArray| x@)[
                    c as int]);
            }
            v.push(get_cell(&self.args[c], self.next_row));
            c = c + 1;
        }
        Some(v)
    }

    /// Records the host's result for the current row and advances. A raised
    /// exception, or a scalar that is not of the declared output type,
    /// aborts the batch as `ForeignCallFailure`, leaving the state
    /// unchanged.
    pub fn record(&mut self, outcome: ScalarOutcome) -> (r: Result<(), DataFusionError>)
        requires
            old(self).inv(),
            old(self)@.next_row < old(self)@.num_rows,
        ensures
            final(self).inv(),
            final(self)@.args == old(self)@.args,
            final(self)@.out_tag == old(self)@.out_tag,
            final(self)@.num_rows == old(self)@.num_rows,
            match r {
                Ok(()) => {
                    &&& outcome matches ScalarOutcome::Returned(s) && scalar_fits(
                        s,
                        old(self)@.out_tag,
                    ) && final(self)@.results == old(self)@.results.push(s)
                    &&& final(self)@.next_row == old(self)@.next_row + 1
                },
                Err(e) => {
                    &&& e matches DataFusionError::ForeignCallFailure(_)
                    &&& final(self)@ == old(self)@
                    &&& match outcome {
                        ScalarOutcome::Raised(m) => e matches DataFusionError::ForeignCallFailure(
                            m2,
                        ) && m2@ == m@,
                        ScalarOutcome::Returned(s) => !scalar_fits(s, old(self)@.out_tag),
                    }
                },
            },
    {
        match outcome {
            ScalarOutcome::Raised(m) => {
                proof {
                    assert(self@ =~= old(self)@);
                }
                Err(DataFusionError::ForeignCallFailure(m))
            },
            ScalarOutcome::Returned(s) => match self.builder.append(s) {
                Ok(()) => {
                    self.next_row = self.next_row + 1;
                    Ok(())
                },
                Err(e) => {
                    proof {
                        assert(self@ =~= old(self)@);
                    }
                    Err(e)
                },
            },
        }
    }

    /// Finalizes the recorded results into the output column: the declared
    /// output type, one element per row, null exactly where the host
    /// returned the missing sentinel. The engine's allocator decides where
    /// the column's buffers live, so their addresses are the caller's to
    /// give.
    pub fn finish(self, nulls_addr: usize, values_addr: usize) -> (r: ColumnArray)
        requires
            self.inv(),
            self@.next_row == self@.num_rows,
        ensures
            r@.wf(),
            r@.tag == self@.out_tag,
            r@.len == self@.num_rows,
            forall|i: int|
                0 <= i < self@.num_rows ==> #[trigger] spec_cell(r@, i) == self@.results[i],
            forall|i: int|
                0 <= i < self@.num_rows ==> (r@.null_at(i) <==> self@.results[i]
                    == ForeignScalar::Missing),
    {
        self.builder.finish(nulls_addr, values_addr)
    }
}

/// Whether a batch of argument columns is valid for a row-wise invocation
/// of the given signature: the declared argument count, the declared types,
/// row-wise-supported types, well-formed columns, one shared length.
pub open spec fn row_args_valid(inputs: Seq<TypeTag>, out: TypeTag, args: Seq<ArrayModel>) -> bool {
    &&& args.len() == inputs.len()
    &&& row_type_supported(out)
    &&& forall|i: int| 0 <= i < args.len() ==> (#[trigger] args[i]).tag == inputs[i]
    &&& forall|i: int| 0 <= i < args.len() ==> row_type_supported((#[trigger] args[i]).tag)
    &&& forall|i: int| 0 <= i < args.len() ==> (#[trigger] args[i]).wf()
    &&& forall|i: int| 0 <= i < args.len() ==> (#[trigger] args[i]).len == args[0].len
}

/// Starts one row-wise invocation over a batch of argument columns,
/// validating everything before the first row: the argument count and each
/// column's type against the declared signature (`SchemaMismatch`
/// otherwise), the types against the row-wise set (`UnsupportedType`
/// otherwise), and the columns' structure and shared length
/// (`LengthMismatch` otherwise). A type mismatch surfaces here, at
/// invocation — a misdeclared column is never read under the wrong type.
#[verifier::loop_isolation(false)]
pub fn row_udf_start(u: &RowUdf, args: Vec<ColumnArray>) -> (r: Result<
    RowUdfCall,
    DataFusionError,
>)
    ensures
        match r {
            Ok(c) => {
                &&& row_args_valid(
                    u.input_types@,
                    u.return_type,
                    args@.map_values(|a: ColumnArray| a@),
                )
                &&& c.inv()
                &&& c@.args == args@.map_values(|a: ColumnArray| a@)
                &&& c@.out_tag == u.return_type
                &&& c@.results.len() == 0
                &&& c@.next_row == 0
                &&& c@.num_rows == (if args@.len() > 0 {
                    args@[0]@.len
                } else {
                    0
                })
            },
            Err(e) => {
                &&& !row_args_valid(
                    u.input_types@,
                    u.return_type,
                    args@.map_values(|a: ColumnArray| a@),
                )
                &&& match e {
                    DataFusionError::SchemaMismatch => args@.len() != u.input_types@.len() || (
                    exists|i: int|
                        0 <= i < args@.len() && (#[trigger] args@[i]@).tag != u.input_types@[i]),
                    DataFusionError::UnsupportedType(_) => !row_type_supported(u.return_type) || (
                    exists|i: int|
                        0 <= i < args@.len() && !row_type_supported((#[trigger] args@[i]@).tag)),
                    DataFusionError::LengthMismatch => (exists|i: int|
                        0 <= i < args@.len() && !(#[trigger] args@[i]@).wf()) || (exists|i: int|
                        0 <= i < args@.len() && (#[trigger] args@[i]@).len != args@[0]@.len),
                    _ => false,
                }
            },
        },
{
    let ghost am = args@.map_values(|a: ColumnArray| a@);
    proof {
        assert forall|i: int| 0 <= i < args@.len() implies #[trigger] args@[i]@ == am[i] by {}
    }
    let n: usize = args.len();
    if n != u.input_types.len() {
        return Err(DataFusionError::SchemaMismatch);
    }
    let builder: ScalarBuilder = match ScalarBuilder::new(u.return_type) {
        Ok(b) => b,
        Err(e) => {
            return Err(e);
        },
    };
    let num_rows: usize = if n > 0 {
        args[0].len
    } else {
        0
    };
    let mut i: usize = 0;
    while i < n
        invariant
            i <= n,
            n == args@.len(),
            forall|j: int| 0 <= j < i ==> (#[trigger] am[j]).tag == u.input_types@[j],
            forall|j: int| 0 <= j < i ==> row_type_supported((#[trigger] am[j]).tag),
            forall|j: int| 0 <= j < i ==> (#[trigger] am[j]).wf(),
            forall|j: int| 0 <= j < i ==> (#[trigger] am[j]).len == num_rows,
            n > 0 ==> num_rows == am[0].len,
        decreases n - i,
    {
        proof {
            assert(am[i as int] == args@[i as int]@);
        }
        if args[i].data_type != u.input_types[i] {
            return Err(DataFusionError::SchemaMismatch);
        }
        let supported: bool = match args[i].data_type {
            TypeTag::Boolean | TypeTag::Int32 | TypeTag::Int64 | TypeTag::Float32
                | TypeTag::Float64 => true,
            _ => false,
        };
        if !supported {
            return Err(
                DataFusionError::UnsupportedType(crate::types::tag_name(&args[i].data_type)),
            );
        }
        if !crate::array::column_wf(&args[i]) {
            return Err(DataFusionError::LengthMismatch);
        }
        if args[i].len != num_rows {
            return Err(DataFusionError::LengthMismatch);
        }
        i = i + 1;
    }
    Ok(RowUdfCall { args, builder, next_row: 0, num_rows })
}

} // verus!
