//! What holds of every merge, whatever NetCDF-C answers.

use vstd::prelude::*;
use crate::attributes::{AttStage, AttState};
use crate::data::{DataStage, DataState};
use crate::dimensions::{DimStage, DimState};
use crate::merge::{MergeModel, MergeStage, MergeState, SPARE_OUTPUT_SIZE};
use crate::protocol::{failure_text, Answer, Call, Part, Step, NC_NETCDF4, NC_NOERR, NC_NOWRITE};
use crate::variables::{DefineStage, DefineState};

verus! {

/// `n`, or zero where it is negative.
pub open spec fn at_least_zero(n: int) -> nat {
    if n < 0 {
        0
    } else {
        n as nat
    }
}

/// How many parts of the work come after the one of `stage`.
pub open spec fn parts_left(stage: MergeStage) -> nat {
    match stage {
        MergeStage::Lock => 15,
        MergeStage::Open(Part::A) => 14,
        MergeStage::Open(Part::B) => 13,
        MergeStage::Create => 12,
        MergeStage::Dims(s) => if s.part is A {
            11
        } else {
            10
        },
        MergeStage::Atts(s) => if s.part is A {
            9
        } else {
            8
        },
        MergeStage::Vars(s) => if s.part is A {
            7
        } else {
            6
        },
        MergeStage::EndDef => 5,
        MergeStage::Data(s) => if s.part is A {
            4
        } else {
            3
        },
        MergeStage::Close(Part::A) => 2,
        MergeStage::Close(Part::B) => 1,
        MergeStage::CloseOut => 0,
    }
}

/// Whether NetCDF-C is told to define something in the output.
pub open spec fn defines(call: Call) -> bool {
    call is DefDim || call is CopyAtt || call is DefVar
}

/// Whether NetCDF-C is told to write values to the output.
pub open spec fn writes(call: Call) -> bool {
    call is PutVar || call is PutVarString
}

/// The dataset that a call changes, where it changes one that is open.
pub open spec fn changed(call: Call) -> Option<i32> {
    match call {
        Call::DefDim { ncid, name, len } => Some(ncid),
        Call::CopyAtt { src_ncid, src_varid, name, dst_ncid, dst_varid } => Some(dst_ncid),
        Call::DefVar { ncid, name, xtype, dimids } => Some(ncid),
        Call::EndDef { ncid } => Some(ncid),
        Call::PutVar { ncid, varid, data } => Some(ncid),
        Call::PutVarString { ncid, varid } => Some(ncid),
        _ => None,
    }
}

/// The dataset that `part` is opened as.
pub open spec fn source(s: MergeState, part: Part) -> i32 {
    match part {
        Part::A => s.ncid_a,
        Part::B => s.ncid_b,
    }
}

/// Whether the work in hand goes from one of the two inputs to the output.
pub open spec fn linked(s: MergeState) -> bool {
    match s.stage {
        MergeStage::Dims(d) => d.src == source(s, d.part) && d.dst == s.ncid_out,
        MergeStage::Atts(d) => d.src == source(s, d.part) && d.dst == s.ncid_out,
        MergeStage::Vars(d) => d.src == source(s, d.part) && d.dst == s.ncid_out,
        MergeStage::Data(d) => d.src == source(s, d.part) && d.dst == s.ncid_out,
        _ => true,
    }
}

/// Whether the strings of a variable are being written.
pub open spec fn writes_strings(s: MergeState) -> bool {
    s.stage matches MergeStage::Data(d) && d.stage is PutStrings
}

/// Whether strings are being freed that could not be written.
pub open spec fn frees_unwritten(s: MergeState) -> bool {
    s.stage matches MergeStage::Data(d) && (d.stage matches DataStage::FreeStrings {
        put_status,
        ..
    } && put_status != NC_NOERR)
}

/// Whether a merge has failed with the message of a call at the end of its error.
pub open spec fn reports(m: MergeModel, message: Seq<char>) -> bool {
    exists|context: Seq<char>| m == MergeModel::Finished(
        Err(#[trigger] failure_text(context, message)),
    )
}

/// The call that a merge waits for, where it is not finished.
pub open spec fn awaited(m: MergeModel) -> Option<Call> {
    match m {
        MergeModel::Running(s) => Some(s.request()),
        MergeModel::Finished(_) => None,
    }
}

/// What a merge comes to with the answer `r`.
pub open spec fn after(m: MergeModel, r: Answer) -> MergeModel {
    match m {
        MergeModel::Running(s) => s.resume(r),
        MergeModel::Finished(result) => MergeModel::Finished(result),
    }
}

/// Every merge takes the lock before any other call, and makes no other call where it does not
/// get it.
pub proof fn law_lock_first(a: Seq<u8>, b: Seq<u8>, r: Answer)
    ensures
        awaited(MergeModel::start(a, b)) == Some(Call::Lock),
        r.ok() ==> after(MergeModel::start(a, b), r) is Running,
        !r.ok() ==> after(MergeModel::start(a, b), r) == MergeModel::Finished(
            Err("Could not acquire NetCDF-C lock"@),
        ),
{
}

/// Both files are opened for reading, part A first, and then the output is created with room for
/// both and some more.
pub proof fn law_files_are_opened(
    a: Seq<u8>,
    b: Seq<u8>,
    locked: Answer,
    opened_a: Answer,
    opened_b: Answer,
)
    requires
        locked.ok(),
        opened_a.ok(),
        opened_b.ok(),
    ensures
        ({
            let m = after(MergeModel::start(a, b), locked);
            &&& awaited(m) == Some(
                Call::OpenMem { path: "memory_part_a"@, mode: NC_NOWRITE, memory: a },
            )
            &&& awaited(after(m, opened_a)) == Some(
                Call::OpenMem { path: "memory_part_b"@, mode: NC_NOWRITE, memory: b },
            )
            &&& awaited(after(after(m, opened_a), opened_b)) == Some(
                Call::CreateMem {
                    path: "memory_combined"@,
                    mode: NC_NETCDF4,
                    initial_size: (a.len() + b.len() + SPARE_OUTPUT_SIZE) as usize,
                },
            )
        }),
{
}

/// A call that fails makes the merge fail, with the message of NetCDF-C at the end of the error.
/// Where strings could not be written they are freed first, whatever comes of that.
pub proof fn law_failed_call(s: MergeState, r: Answer, freed: Answer)
    requires
        !r.ok(),
    ensures
        !writes_strings(s) ==> s.resume(r) matches MergeModel::Finished(Err(_)),
        !writes_strings(s) && !frees_unwritten(s) && s.stage !is Lock ==> reports(
            s.resume(r),
            r.message,
        ),
        writes_strings(s) ==> (s.resume(r) matches MergeModel::Running(t) && t.request()
            is FreeString && reports(t.resume(freed), r.message)),
{
    broadcast use lemma_reports;

}

/// A merge that has failed with a message after a context reports that message.
broadcast proof fn lemma_reports(context: Seq<char>, message: Seq<char>)
    ensures
        reports(
            MergeModel::Finished(Err(#[trigger] failure_text(context, message))),
            message,
        ),
{
}

/// A merge succeeds only when the output was closed, with the bytes that this gave, of which
/// there is at least one.
pub proof fn law_success(s: MergeState, r: Answer, output: Seq<u8>)
    ensures
        s.resume(r) == MergeModel::Finished(Ok(output)) <==> s.stage is CloseOut && r.ok() && r.data
            == output && output.len() > 0,
{
}

/// How much is left of the copying of dimensions.
pub open spec fn dims_left(s: DimState) -> nat {
    match s.stage {
        DimStage::Count => (2 * i32::MAX + 2) as nat,
        DimStage::Read { ndims, dimid } => 2 * at_least_zero(ndims - dimid) + 1,
        DimStage::Define { ndims, dimid, name, len } => 2 * at_least_zero(ndims - dimid),
    }
}

/// How much is left of the copying of global attributes.
pub open spec fn atts_left(s: AttState) -> nat {
    match s.stage {
        AttStage::Count => (2 * i32::MAX + 2) as nat,
        AttStage::Name { natts, attnum } => 2 * at_least_zero(natts - attnum) + 1,
        AttStage::Copy { natts, attnum, name } => 2 * at_least_zero(natts - attnum),
    }
}

/// How many variables are left to define, the one in hand among them.
pub open spec fn vars_left(s: DefineState) -> nat {
    match s.stage {
        DefineStage::Count => (i32::MAX + 1) as nat,
        DefineStage::Read { nvars, varid } => at_least_zero(nvars - varid),
        DefineStage::Define { nvars, varid, name, xtype, dimids, natts } => at_least_zero(
            nvars - varid,
        ),
        DefineStage::NameAtt { nvars, varid, name, out_varid, natts, attnum } => at_least_zero(
            nvars - varid,
        ),
        DefineStage::CopyAtt { nvars, varid, name, out_varid, natts, attnum, att_name } =>
            at_least_zero(nvars - varid),
    }
}

/// How much is left to do for the variable that is being defined.
pub open spec fn var_left(s: DefineState) -> nat {
    match s.stage {
        DefineStage::Count => 0,
        DefineStage::Read { nvars, varid } => (2 * i32::MAX + 3) as nat,
        DefineStage::Define { nvars, varid, name, xtype, dimids, natts } => (2 * i32::MAX
            + 2) as nat,
        DefineStage::NameAtt { nvars, varid, name, out_varid, natts, attnum } => 2 * at_least_zero(
            natts - attnum,
        ) + 1,
        DefineStage::CopyAtt { nvars, varid, name, out_varid, natts, attnum, att_name } => 2
            * at_least_zero(natts - attnum),
    }
}

/// How much is left to do for the variable whose values are being copied, before and after its
/// dimensions are measured.
pub open spec fn values_left(s: DataState) -> nat {
    match s.stage {
        DataStage::Inspect => 6,
        DataStage::TypeSize { name, xtype, dimids } => 5,
        DataStage::DimLen { name, xtype, elem_size, dimids, i, count } => 4,
        DataStage::GetStrings { name, count } => 3,
        DataStage::PutStrings { name, count } => 2,
        DataStage::FreeStrings { name, count, put_status, put_message } => 1,
        DataStage::Get { name, size } => 2,
        DataStage::Put { name, data } => 1,
    }
}

/// How many dimensions are left to measure of the variable whose values are being copied.
pub open spec fn lens_left(s: DataState) -> nat {
    match s.stage {
        DataStage::DimLen { name, xtype, elem_size, dimids, i, count } => at_least_zero(
            dimids.len() - i,
        ),
        _ => 0,
    }
}

/// How much is left of a merge: each number counts for more than all numbers after it.
pub open spec fn left(s: MergeState) -> (nat, nat, nat, nat) {
    let parts = parts_left(s.stage);
    match s.stage {
        MergeStage::Dims(d) => (parts, dims_left(d), 0, 0),
        MergeStage::Atts(d) => (parts, atts_left(d), 0, 0),
        MergeStage::Vars(d) => (parts, vars_left(d), var_left(d), 0),
        MergeStage::Data(d) => (
            parts,
            at_least_zero(d.pairs.len() - d.at),
            values_left(d),
            lens_left(d),
        ),
        _ => (parts, 0, 0, 0),
    }
}

/// Whether `x` is less than `y`, as `left` counts.
pub open spec fn less(x: (nat, nat, nat, nat), y: (nat, nat, nat, nat)) -> bool {
    ||| x.0 < y.0
    ||| x.0 == y.0 && x.1 < y.1
    ||| x.0 == y.0 && x.1 == y.1 && x.2 < y.2
    ||| x.0 == y.0 && x.1 == y.1 && x.2 == y.2 && x.3 < y.3
}

/// A step of the copying of dimensions.
proof fn lemma_dims_step(s: MergeState, d: DimState, r: Answer)
    requires
        s.stage == MergeStage::Dims(d),
    ensures
        s.resume(r) matches MergeModel::Running(t) ==> less(left(t), left(s)) && (linked(s)
            ==> linked(t)),
{
    let (out, step) = d.resume(s.out_dims, r);
    assert(step matches Step::More(e) ==> e.part == d.part && e.src == d.src
        && e.dst == d.dst && dims_left(e) < dims_left(d));
}

/// A step of the copying of global attributes.
proof fn lemma_atts_step(s: MergeState, d: AttState, r: Answer)
    requires
        s.stage == MergeStage::Atts(d),
    ensures
        s.resume(r) matches MergeModel::Running(t) ==> less(left(t), left(s)) && (linked(s)
            ==> linked(t)),
{
    let (copied, step) = d.resume(s.copied_atts, r);
    assert(step matches Step::More(e) ==> e.part == d.part && e.src == d.src
        && e.dst == d.dst && atts_left(e) < atts_left(d));
}

/// A step of the copying of variable definitions.
proof fn lemma_vars_step(s: MergeState, d: DefineState, r: Answer)
    requires
        s.stage == MergeStage::Vars(d),
    ensures
        s.resume(r) matches MergeModel::Running(t) ==> less(left(t), left(s)) && (linked(s)
            ==> linked(t)),
{
    let (copied, step) = d.resume(s.copied_vars, r);
    assert(step matches Step::More(e) ==> e.part == d.part && e.src == d.src
        && e.dst == d.dst && (vars_left(e) < vars_left(d) || vars_left(e) == vars_left(d)
        && var_left(e) < var_left(d)));
}

/// A step of the copying of values.
proof fn lemma_data_step(s: MergeState, d: DataState, r: Answer)
    requires
        s.stage == MergeStage::Data(d),
    ensures
        s.resume(r) matches MergeModel::Running(t) ==> less(left(t), left(s)) && (linked(s)
            ==> linked(t)),
{
    let step = d.resume(r);
    assert(step matches Step::More(e) ==> {
        &&& e.part == d.part
        &&& e.src == d.src
        &&& e.dst == d.dst
        &&& e.pairs == d.pairs
        &&& e.at > d.at && e.at < d.pairs.len() || e.at == d.at && (values_left(e) < values_left(d)
            || values_left(e) == values_left(d) && lens_left(e) < lens_left(d))
    });
}

/// Every answer brings a merge closer to its end.
pub proof fn law_progress(s: MergeState, r: Answer)
    ensures
        s.resume(r) matches MergeModel::Running(t) ==> less(left(t), left(s)),
{
    match s.stage {
        MergeStage::Dims(d) => lemma_dims_step(s, d, r),
        MergeStage::Atts(d) => lemma_atts_step(s, d, r),
        MergeStage::Vars(d) => lemma_vars_step(s, d, r),
        MergeStage::Data(d) => lemma_data_step(s, d, r),
        _ => {},
    }
}

/// The parts of the work come in one order.
pub proof fn law_order(s: MergeState, r: Answer)
    ensures
        s.resume(r) matches MergeModel::Running(t) ==> parts_left(t.stage) <= parts_left(s.stage),
{
    law_progress(s, r);
}

/// The merge `m` after its first `n` calls, where the answer of each call is `answers` of the
/// number of calls before it.
pub open spec fn answered(m: MergeModel, answers: spec_fn(nat) -> Answer, n: nat) -> MergeModel
    decreases n,
{
    if n == 0 {
        m
    } else {
        after(answered(m, answers, (n - 1) as nat), answers((n - 1) as nat))
    }
}

/// Every merge ends, whatever the answers are.
pub proof fn law_every_merge_ends(m: MergeModel, answers: spec_fn(nat) -> Answer)
    ensures
        exists|n: nat| #[trigger] answered(m, answers, n) is Finished,
{
    assert(answered(m, answers, 0) == m);
    match m {
        MergeModel::Finished(_) => {},
        MergeModel::Running(s) => lemma_ends(m, answers, 0, s),
    }
}

/// A merge that has come to `s` ends.
proof fn lemma_ends(m: MergeModel, answers: spec_fn(nat) -> Answer, n: nat, s: MergeState)
    requires
        answered(m, answers, n) == MergeModel::Running(s),
    ensures
        exists|n: nat| #[trigger] answered(m, answers, n) is Finished,
    decreases left(s).0, left(s).1, left(s).2, left(s).3,
{
    law_progress(s, answers(n));
    assert(answered(m, answers, n + 1) == s.resume(answers(n)));
    match s.resume(answers(n)) {
        MergeModel::Finished(_) => {},
        MergeModel::Running(t) => lemma_ends(m, answers, n + 1, t),
    }
}

/// Everything is defined before the output leaves define mode, and all values are written after
/// that.
pub proof fn law_definitions_before_values(s: MergeState)
    ensures
        defines(s.request()) ==> parts_left(s.stage) > parts_left(MergeStage::EndDef),
        s.request() is EndDef <==> s.stage == MergeStage::EndDef,
        writes(s.request()) ==> parts_left(s.stage) < parts_left(MergeStage::EndDef),
{
}

/// Merging changes no dataset but the output. The work in hand goes from an input to the output
/// when a merge begins and after every answer.
pub proof fn law_only_the_output_is_changed(a: Seq<u8>, b: Seq<u8>, s: MergeState, r: Answer)
    ensures
        MergeModel::start(a, b) matches MergeModel::Running(t) && linked(t),
        linked(s) ==> (s.resume(r) matches MergeModel::Running(t) ==> linked(t)),
        linked(s) && changed(s.request()) is Some ==> changed(s.request()) == Some(s.ncid_out),
{
    match s.stage {
        MergeStage::Dims(d) => lemma_dims_step(s, d, r),
        MergeStage::Atts(d) => lemma_atts_step(s, d, r),
        MergeStage::Vars(d) => lemma_vars_step(s, d, r),
        MergeStage::Data(d) => lemma_data_step(s, d, r),
        _ => {},
    }
}

} // verus!
