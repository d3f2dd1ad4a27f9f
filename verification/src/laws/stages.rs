//! What each answer leads a merge to, from one part of the work to the next.

use vstd::prelude::*;
use crate::attributes::{AttStage, AttState, AttStep};
use crate::data::{DataStage, DataState, DataStep};
use crate::dimensions::{DimStage, DimState, DimStep, OutDims};
use crate::merge::{MergeModel, MergeStage, MergeState};
use crate::protocol::{Answer, Call, Part};
use crate::variables::{DefineStage, DefineState, DefineStep};

verus! {

/// A merge starts with the lock, and with nothing opened and nothing copied.
pub proof fn law_start(a: Seq<u8>, b: Seq<u8>)
    ensures
        MergeModel::start(a, b) matches MergeModel::Running(s) && s.a == a && s.b == b && s.stage
            is Lock && s.out_dims == Map::<Seq<char>, (usize, i32)>::empty() && s.copied_atts
            == Set::<Seq<char>>::empty() && s.copied_vars == Set::<Seq<char>>::empty(),
{
}

/// The calls of a merge that belong to no part of the copying.
pub proof fn law_own_calls(s: MergeState)
    ensures
        s.stage is Lock ==> s.request() is Lock,
        s.stage == MergeStage::Open(Part::A) ==> s.request() == (Call::OpenMem {
            path: "memory_part_a"@,
            mode: 0,
            memory: s.a,
        }),
        s.stage == MergeStage::Open(Part::B) ==> s.request() == (Call::OpenMem {
            path: "memory_part_b"@,
            mode: 0,
            memory: s.b,
        }),
        s.stage is Create ==> s.request() == (Call::CreateMem {
            path: "memory_combined"@,
            mode: 4096,
            initial_size: (s.a.len() + s.b.len() + 16384) as usize,
        }),
        s.stage is EndDef ==> s.request() == (Call::EndDef { ncid: s.ncid_out }),
        s.stage == MergeStage::Close(Part::A) ==> s.request() == (Call::Close { ncid: s.ncid_a }),
        s.stage == MergeStage::Close(Part::B) ==> s.request() == (Call::Close { ncid: s.ncid_b }),
        s.stage is CloseOut ==> s.request() == (Call::CloseMemio { ncid: s.ncid_out }),
{
}

/// While something is copied, the merge waits for the call that the copying waits for.
pub proof fn law_calls_of_the_copying(s: MergeState)
    ensures
        s.stage matches MergeStage::Dims(d) ==> s.request() == d.request(),
        s.stage matches MergeStage::Atts(d) ==> s.request() == d.request(),
        s.stage matches MergeStage::Vars(d) ==> s.request() == d.request(),
        s.stage matches MergeStage::Data(d) ==> s.request() == d.request(),
{
}

/// A call of its own that fails ends a merge with an error that says what was being done.
pub proof fn law_own_call_failed(s: MergeState, r: Answer)
    requires
        r.status != 0,
    ensures
        s.stage is Lock ==> s.resume(r) == MergeModel::Finished(
            Err("Could not acquire NetCDF-C lock"@),
        ),
        s.stage == MergeStage::Open(Part::A) ==> s.resume(r) == MergeModel::Finished(
            Err("Could not open part_a from memory"@ + ": "@ + r.message),
        ),
        s.stage == MergeStage::Open(Part::B) ==> s.resume(r) == MergeModel::Finished(
            Err("Could not open part_b from memory"@ + ": "@ + r.message),
        ),
        s.stage is Create ==> s.resume(r) == MergeModel::Finished(
            Err("Could not create output NetCDF-4 file in memory"@ + ": "@ + r.message),
        ),
        s.stage is EndDef ==> s.resume(r) == MergeModel::Finished(
            Err("Could not leave define mode"@ + ": "@ + r.message),
        ),
        s.stage == MergeStage::Close(Part::A) ==> s.resume(r) == MergeModel::Finished(
            Err("Could not close part_a"@ + ": "@ + r.message),
        ),
        s.stage == MergeStage::Close(Part::B) ==> s.resume(r) == MergeModel::Finished(
            Err("Could not close part_b"@ + ": "@ + r.message),
        ),
        s.stage is CloseOut ==> s.resume(r) == MergeModel::Finished(
            Err("Could not close output memory NetCDF"@ + ": "@ + r.message),
        ),
{
}

/// After a call of its own that succeeded a merge keeps the ID that was given, if any, and goes on
/// to the next call.
pub proof fn law_own_call_succeeded(s: MergeState, r: Answer)
    requires
        r.status == 0,
    ensures
        s.stage is Lock ==> s.resume(r) == MergeModel::Running(
            MergeState { stage: MergeStage::Open(Part::A), ..s },
        ),
        s.stage == MergeStage::Open(Part::A) ==> s.resume(r) == MergeModel::Running(
            MergeState { ncid_a: r.id, stage: MergeStage::Open(Part::B), ..s },
        ),
        s.stage == MergeStage::Open(Part::B) ==> s.resume(r) == MergeModel::Running(
            MergeState { ncid_b: r.id, stage: MergeStage::Create, ..s },
        ),
        s.stage is Create ==> s.resume(r) == MergeModel::Running(
            MergeState {
                ncid_out: r.id,
                stage: MergeStage::Dims(
                    DimState {
                        part: Part::A,
                        src: s.ncid_a,
                        dst: r.id,
                        dim_map: Seq::empty(),
                        stage: DimStage::Count,
                    },
                ),
                ..s
            },
        ),
        s.stage == MergeStage::Close(Part::A) ==> s.resume(r) == MergeModel::Running(
            MergeState { stage: MergeStage::Close(Part::B), ..s },
        ),
        s.stage == MergeStage::Close(Part::B) ==> s.resume(r) == MergeModel::Running(
            MergeState { stage: MergeStage::CloseOut, ..s },
        ),
        s.stage is CloseOut ==> s.resume(r) == if r.data.len() == 0 {
            MergeModel::Finished(Err("NetCDF-C returned empty output memory"@))
        } else {
            MergeModel::Finished(Ok(r.data))
        },
{
}

/// The copying of dimensions hands on what is known of the output. After part A comes part B, and
/// after that the copying of global attributes; the output dimensions of each part are kept.
pub proof fn law_dims_handed_on(s: MergeState, d: DimState, r: Answer)
    requires
        s.stage == MergeStage::Dims(d),
    ensures
        ({
            let (out_dims, step) = d.resume(s.out_dims, r);
            &&& step matches DimStep::More(e) ==> s.resume(r) == MergeModel::Running(
                MergeState { out_dims, stage: MergeStage::Dims(e), ..s },
            )
            &&& step matches DimStep::Failed(e) ==> s.resume(r) == MergeModel::Finished(Err(e))
            &&& step matches DimStep::Done(dim_map) ==> d.part is A ==> s.resume(r)
                == MergeModel::Running(
                MergeState {
                    out_dims,
                    dim_map_a: dim_map,
                    stage: MergeStage::Dims(
                        DimState {
                            part: Part::B,
                            src: s.ncid_b,
                            dst: s.ncid_out,
                            dim_map: Seq::empty(),
                            stage: DimStage::Count,
                        },
                    ),
                    ..s
                },
            )
            &&& step matches DimStep::Done(dim_map) ==> d.part is B ==> s.resume(r)
                == MergeModel::Running(
                MergeState {
                    out_dims,
                    dim_map_b: dim_map,
                    stage: MergeStage::Atts(
                        AttState {
                            part: Part::A,
                            src: s.ncid_a,
                            dst: s.ncid_out,
                            stage: AttStage::Count,
                        },
                    ),
                    ..s
                },
            )
        }),
{
}

/// The copying of global attributes hands on which ones the output has. After part A comes part B,
/// and after that the copying of variable definitions, with the output dimensions of part A.
pub proof fn law_atts_handed_on(s: MergeState, d: AttState, r: Answer)
    requires
        s.stage == MergeStage::Atts(d),
    ensures
        ({
            let (copied_atts, step) = d.resume(s.copied_atts, r);
            &&& step matches AttStep::More(e) ==> s.resume(r) == MergeModel::Running(
                MergeState { copied_atts, stage: MergeStage::Atts(e), ..s },
            )
            &&& step matches AttStep::Failed(e) ==> s.resume(r) == MergeModel::Finished(Err(e))
            &&& step is Done && d.part is A ==> s.resume(r) == MergeModel::Running(
                MergeState {
                    copied_atts,
                    stage: MergeStage::Atts(
                        AttState {
                            part: Part::B,
                            src: s.ncid_b,
                            dst: s.ncid_out,
                            stage: AttStage::Count,
                        },
                    ),
                    ..s
                },
            )
            &&& step is Done && d.part is B ==> s.resume(r) == MergeModel::Running(
                MergeState {
                    copied_atts,
                    stage: MergeStage::Vars(
                        DefineState {
                            part: Part::A,
                            src: s.ncid_a,
                            dst: s.ncid_out,
                            dim_map: s.dim_map_a,
                            pairs: Seq::empty(),
                            stage: DefineStage::Count,
                        },
                    ),
                    ..s
                },
            )
        }),
{
}

/// The copying of variable definitions hands on which variables the output has. After part A comes
/// part B, with its own output dimensions, and after that the output leaves define mode; the
/// variables that were defined for each part are kept.
pub proof fn law_vars_handed_on(s: MergeState, d: DefineState, r: Answer)
    requires
        s.stage == MergeStage::Vars(d),
    ensures
        ({
            let (copied_vars, step) = d.resume(s.copied_vars, r);
            &&& step matches DefineStep::More(e) ==> s.resume(r) == MergeModel::Running(
                MergeState { copied_vars, stage: MergeStage::Vars(e), ..s },
            )
            &&& step matches DefineStep::Failed(e) ==> s.resume(r) == MergeModel::Finished(Err(e))
            &&& step matches DefineStep::Done(pairs) ==> d.part is A ==> s.resume(r)
                == MergeModel::Running(
                MergeState {
                    copied_vars,
                    vars_a: pairs,
                    stage: MergeStage::Vars(
                        DefineState {
                            part: Part::B,
                            src: s.ncid_b,
                            dst: s.ncid_out,
                            dim_map: s.dim_map_b,
                            pairs: Seq::empty(),
                            stage: DefineStage::Count,
                        },
                    ),
                    ..s
                },
            )
            &&& step matches DefineStep::Done(pairs) ==> d.part is B ==> s.resume(r)
                == MergeModel::Running(
                MergeState { copied_vars, vars_b: pairs, stage: MergeStage::EndDef, ..s },
            )
        }),
{
}

/// When the output has left define mode the values of part A are copied, and after the last of
/// them, or at once where there are none, those of part B. The inputs are closed after that.
pub proof fn law_values_handed_on(s: MergeState, r: Answer)
    requires
        s.stage is EndDef && r.status == 0 || (s.stage matches MergeStage::Data(d) && d.part is A
            && d.resume(r) is Done),
    ensures
        s.stage is EndDef && s.vars_a.len() > 0 ==> s.resume(r) == MergeModel::Running(
            MergeState {
                stage: MergeStage::Data(
                    DataState {
                        part: Part::A,
                        src: s.ncid_a,
                        dst: s.ncid_out,
                        pairs: s.vars_a,
                        at: 0,
                        stage: DataStage::Inspect,
                    },
                ),
                ..s
            },
        ),
        (s.stage is EndDef ==> s.vars_a.len() == 0) && s.vars_b.len() > 0 ==> s.resume(r)
            == MergeModel::Running(
            MergeState {
                stage: MergeStage::Data(
                    DataState {
                        part: Part::B,
                        src: s.ncid_b,
                        dst: s.ncid_out,
                        pairs: s.vars_b,
                        at: 0,
                        stage: DataStage::Inspect,
                    },
                ),
                ..s
            },
        ),
        (s.stage is EndDef ==> s.vars_a.len() == 0) && s.vars_b.len() == 0 ==> s.resume(r)
            == MergeModel::Running(MergeState { stage: MergeStage::Close(Part::A), ..s }),
{
}

/// The copying of values goes on until it is done or has failed, and the inputs are closed after
/// the values of part B.
pub proof fn law_values_copied(s: MergeState, d: DataState, r: Answer)
    requires
        s.stage == MergeStage::Data(d),
    ensures
        d.resume(r) matches DataStep::More(e) ==> s.resume(r) == MergeModel::Running(
            MergeState { stage: MergeStage::Data(e), ..s },
        ),
        d.resume(r) matches DataStep::Failed(e) ==> s.resume(r) == MergeModel::Finished(Err(e)),
        d.resume(r) is Done && d.part is B ==> s.resume(r) == MergeModel::Running(
            MergeState { stage: MergeStage::Close(Part::A), ..s },
        ),
{
}

/// Whether two answers to a call say the same, as far as the call has output parameters.
pub open spec fn alike(call: Call, x: Answer, y: Answer) -> bool {
    &&& x.status == y.status
    &&& x.message == y.message
    &&& match call {
        Call::OpenMem { path, mode, memory } => x.id == y.id,
        Call::CreateMem { path, mode, initial_size } => x.id == y.id,
        Call::Inq { ncid } => x.ndims == y.ndims && x.nvars == y.nvars && x.natts == y.natts,
        Call::InqDim { ncid, dimid } => x.name == y.name && x.len == y.len,
        Call::DefDim { ncid, name, len } => x.id == y.id,
        Call::InqAttName { ncid, varid, attnum } => x.name == y.name,
        Call::InqVar { ncid, varid } => x.name == y.name && x.xtype == y.xtype && x.dimids
            == y.dimids && x.natts == y.natts,
        Call::DefVar { ncid, name, xtype, dimids } => x.id == y.id,
        Call::InqType { ncid, xtype } => x.len == y.len,
        Call::InqDimLen { ncid, dimid } => x.len == y.len,
        Call::GetVar { ncid, varid, size } => x.data == y.data,
        Call::CloseMemio { ncid } => x.data == y.data,
        _ => true,
    }
}

/// Nothing of an answer matters but its status, its message and the output parameters of the call:
/// two answers that agree in these lead a merge to the same.
pub proof fn law_only_outputs_matter(s: MergeState, x: Answer, y: Answer)
    requires
        alike(s.request(), x, y),
    ensures
        s.resume(x) == s.resume(y),
{
    match s.stage {
        MergeStage::Dims(d) => lemma_dims_alike(d, s.out_dims, x, y),
        MergeStage::Atts(d) => lemma_atts_alike(d, s.copied_atts, x, y),
        MergeStage::Vars(d) => lemma_vars_alike(d, s.copied_vars, x, y),
        MergeStage::Data(d) => lemma_values_alike(d, x, y),
        _ => {},
    }
}

/// Answers that say the same lead the copying of dimensions to the same.
proof fn lemma_dims_alike(d: DimState, out: OutDims, x: Answer, y: Answer)
    requires
        alike(d.request(), x, y),
    ensures
        d.resume(out, x) == d.resume(out, y),
{
}

/// Answers that say the same lead the copying of global attributes to the same.
proof fn lemma_atts_alike(d: AttState, copied: Set<Seq<char>>, x: Answer, y: Answer)
    requires
        alike(d.request(), x, y),
    ensures
        d.resume(copied, x) == d.resume(copied, y),
{
}

/// Answers that say the same lead the copying of variable definitions to the same.
proof fn lemma_vars_alike(d: DefineState, copied: Set<Seq<char>>, x: Answer, y: Answer)
    requires
        alike(d.request(), x, y),
    ensures
        d.resume(copied, x) == d.resume(copied, y),
{
}

/// Answers that say the same lead the copying of values to the same.
proof fn lemma_values_alike(d: DataState, x: Answer, y: Answer)
    requires
        alike(d.request(), x, y),
    ensures
        d.resume(x) == d.resume(y),
{
}

} // verus!
