//! Combining two NetCDF-4 files in memory.
//!
//! A merge is structural. It copies the dimensions of both files, then their global attributes,
//! then the definitions of their variables, and at last the values of the variables. Dimensions
//! of the same name must have the same length; of global attributes and of variables of the same
//! name, those of part A are kept.

use vstd::hash_map::StringHashMap;
use vstd::hash_set::StringHashSet;
use vstd::prelude::*;
use crate::attributes::{AttState, AttStep, CopyGlobalAttributes};
use crate::data::{CopyVariableData, DataState, DataStep};
use crate::dimensions::{CopyDimensions, DimState, DimStep, OutDims};
use crate::protocol::{Answer, Call, Part, Reply, Request, Step, NC_NETCDF4, NC_NOWRITE};
use crate::variables::{DefineState, DefineStep, DefineVariables};

verus! {

/// How much larger than the two inputs the memory for the output is made at first. It grows
/// where that does not suffice.
pub const SPARE_OUTPUT_SIZE: usize = 16384;

/// Where a merge stands: which call, or the calls of which part of the work, it waits for.
#[verifier::ext_equal]
pub enum MergeStage {
    Lock,
    Open(Part),
    Create,
    Dims(DimState),
    Atts(AttState),
    Vars(DefineState),
    EndDef,
    Data(DataState),
    Close(Part),
    CloseOut,
}

/// The model of a merge that is not finished.
#[verifier::ext_equal]
pub struct MergeState {
    /// The bytes of part A.
    pub a: Seq<u8>,
    /// The bytes of part B.
    pub b: Seq<u8>,
    /// The dataset that part A is opened as.
    pub ncid_a: i32,
    /// The dataset that part B is opened as.
    pub ncid_b: i32,
    /// The output.
    pub ncid_out: i32,
    /// The dimensions that the output has.
    pub out_dims: OutDims,
    /// The output dimension of each dimension of part A.
    pub dim_map_a: Seq<i32>,
    /// The output dimension of each dimension of part B.
    pub dim_map_b: Seq<i32>,
    /// The names of the global attributes that the output has.
    pub copied_atts: Set<Seq<char>>,
    /// The names of the variables that the output has.
    pub copied_vars: Set<Seq<char>>,
    /// The source and the output ID of each variable that is copied from part A.
    pub vars_a: Seq<(i32, i32)>,
    /// The source and the output ID of each variable that is copied from part B.
    pub vars_b: Seq<(i32, i32)>,
    pub stage: MergeStage,
}

/// The model of a [`Merge`].
#[verifier::ext_equal]
pub enum MergeModel {
    Running(MergeState),
    Finished(Result<Seq<u8>, Seq<char>>),
}

impl MergeModel {
    /// The merge of the bytes `a` and `b`, before its first call.
    pub open spec fn start(a: Seq<u8>, b: Seq<u8>) -> MergeModel {
        MergeModel::Running(
            MergeState {
                a,
                b,
                ncid_a: (-1) as i32,
                ncid_b: (-1) as i32,
                ncid_out: (-1) as i32,
                out_dims: Map::empty(),
                dim_map_a: Seq::empty(),
                dim_map_b: Seq::empty(),
                copied_atts: Set::empty(),
                copied_vars: Set::empty(),
                vars_a: Seq::empty(),
                vars_b: Seq::empty(),
                stage: MergeStage::Lock,
            },
        )
    }
}

impl MergeState {
    /// The call that is waited for.
    pub open spec fn request(self) -> Call {
        match self.stage {
            MergeStage::Lock => Call::Lock,
            MergeStage::Open(Part::A) => Call::OpenMem {
                path: "memory_part_a"@,
                mode: NC_NOWRITE,
                memory: self.a,
            },
            MergeStage::Open(Part::B) => Call::OpenMem {
                path: "memory_part_b"@,
                mode: NC_NOWRITE,
                memory: self.b,
            },
            MergeStage::Create => Call::CreateMem {
                path: "memory_combined"@,
                mode: NC_NETCDF4,
                initial_size: (self.a.len() + self.b.len() + SPARE_OUTPUT_SIZE) as usize,
            },
            MergeStage::Dims(s) => s.request(),
            MergeStage::Atts(s) => s.request(),
            MergeStage::Vars(s) => s.request(),
            MergeStage::EndDef => Call::EndDef { ncid: self.ncid_out },
            MergeStage::Data(s) => s.request(),
            MergeStage::Close(Part::A) => Call::Close { ncid: self.ncid_a },
            MergeStage::Close(Part::B) => Call::Close { ncid: self.ncid_b },
            MergeStage::CloseOut => Call::CloseMemio { ncid: self.ncid_out },
        }
    }

    /// Waiting for the call of `stage`.
    pub open spec fn to(self, stage: MergeStage) -> MergeModel {
        MergeModel::Running(MergeState { stage, ..self })
    }

    /// Going on after a step of the copying of dimensions from `part`.
    pub open spec fn after_dims(self, part: Part, step: DimStep) -> MergeModel {
        match step {
            Step::More(s) => self.to(MergeStage::Dims(s)),
            Step::Failed(e) => MergeModel::Finished(Err(e)),
            Step::Done(dim_map) => match part {
                Part::A => MergeState { dim_map_a: dim_map, ..self }.to(
                    MergeStage::Dims(DimState::start(Part::B, self.ncid_b, self.ncid_out)),
                ),
                Part::B => MergeState { dim_map_b: dim_map, ..self }.to(
                    MergeStage::Atts(AttState::start(Part::A, self.ncid_a, self.ncid_out)),
                ),
            },
        }
    }

    /// Going on after a step of the copying of global attributes from `part`.
    pub open spec fn after_atts(self, part: Part, step: AttStep) -> MergeModel {
        match step {
            Step::More(s) => self.to(MergeStage::Atts(s)),
            Step::Failed(e) => MergeModel::Finished(Err(e)),
            Step::Done(_) => match part {
                Part::A => self.to(
                    MergeStage::Atts(AttState::start(Part::B, self.ncid_b, self.ncid_out)),
                ),
                Part::B => self.to(
                    MergeStage::Vars(
                        DefineState::start(Part::A, self.ncid_a, self.ncid_out, self.dim_map_a),
                    ),
                ),
            },
        }
    }

    /// Going on after a step of the copying of variable definitions from `part`.
    pub open spec fn after_vars(self, part: Part, step: DefineStep) -> MergeModel {
        match step {
            Step::More(s) => self.to(MergeStage::Vars(s)),
            Step::Failed(e) => MergeModel::Finished(Err(e)),
            Step::Done(pairs) => match part {
                Part::A => MergeState { vars_a: pairs, ..self }.to(
                    MergeStage::Vars(
                        DefineState::start(Part::B, self.ncid_b, self.ncid_out, self.dim_map_b),
                    ),
                ),
                Part::B => MergeState { vars_b: pairs, ..self }.to(MergeStage::EndDef),
            },
        }
    }

    /// Going on after a step of the copying of values from part B.
    pub open spec fn after_data_b(self, step: DataStep) -> MergeModel {
        match step {
            Step::More(s) => self.to(MergeStage::Data(s)),
            Step::Failed(e) => MergeModel::Finished(Err(e)),
            Step::Done(_) => self.to(MergeStage::Close(Part::A)),
        }
    }

    /// Going on after a step of the copying of values from part A.
    pub open spec fn after_data_a(self, step: DataStep) -> MergeModel {
        match step {
            Step::More(s) => self.to(MergeStage::Data(s)),
            Step::Failed(e) => MergeModel::Finished(Err(e)),
            Step::Done(_) => self.after_data_b(
                DataState::start(Part::B, self.ncid_b, self.ncid_out, self.vars_b),
            ),
        }
    }

    /// What the answer `r` leads to.
    pub open spec fn resume(self, r: Answer) -> MergeModel {
        match self.stage {
            MergeStage::Lock => if !r.ok() {
                MergeModel::Finished(Err("Could not acquire NetCDF-C lock"@))
            } else {
                self.to(MergeStage::Open(Part::A))
            },
            MergeStage::Open(Part::A) => if !r.ok() {
                MergeModel::Finished(Err(r.failure("Could not open part_a from memory"@)))
            } else {
                MergeState { ncid_a: r.id, ..self }.to(MergeStage::Open(Part::B))
            },
            MergeStage::Open(Part::B) => if !r.ok() {
                MergeModel::Finished(Err(r.failure("Could not open part_b from memory"@)))
            } else {
                MergeState { ncid_b: r.id, ..self }.to(MergeStage::Create)
            },
            MergeStage::Create => if !r.ok() {
                MergeModel::Finished(
                    Err(r.failure("Could not create output NetCDF-4 file in memory"@)),
                )
            } else {
                MergeState { ncid_out: r.id, ..self }.to(
                    MergeStage::Dims(DimState::start(Part::A, self.ncid_a, r.id)),
                )
            },
            MergeStage::Dims(s) => {
                let (out_dims, step) = s.resume(self.out_dims, r);
                MergeState { out_dims, ..self }.after_dims(s.part, step)
            },
            MergeStage::Atts(s) => {
                let (copied_atts, step) = s.resume(self.copied_atts, r);
                MergeState { copied_atts, ..self }.after_atts(s.part, step)
            },
            MergeStage::Vars(s) => {
                let (copied_vars, step) = s.resume(self.copied_vars, r);
                MergeState { copied_vars, ..self }.after_vars(s.part, step)
            },
            MergeStage::EndDef => if !r.ok() {
                MergeModel::Finished(Err(r.failure("Could not leave define mode"@)))
            } else {
                self.after_data_a(
                    DataState::start(Part::A, self.ncid_a, self.ncid_out, self.vars_a),
                )
            },
            MergeStage::Data(s) => match s.part {
                Part::A => self.after_data_a(s.resume(r)),
                Part::B => self.after_data_b(s.resume(r)),
            },
            MergeStage::Close(Part::A) => if !r.ok() {
                MergeModel::Finished(Err(r.failure("Could not close part_a"@)))
            } else {
                self.to(MergeStage::Close(Part::B))
            },
            MergeStage::Close(Part::B) => if !r.ok() {
                MergeModel::Finished(Err(r.failure("Could not close part_b"@)))
            } else {
                self.to(MergeStage::CloseOut)
            },
            MergeStage::CloseOut => if !r.ok() {
                MergeModel::Finished(Err(r.failure("Could not close output memory NetCDF"@)))
            } else if r.data.len() == 0 {
                MergeModel::Finished(Err("NetCDF-C returned empty output memory"@))
            } else {
                MergeModel::Finished(Ok(r.data))
            },
        }
    }
}

/// The call, or the part of the work, that a merge waits for.
enum Stage {
    Lock,
    Open(Part),
    Create,
    Dims(CopyDimensions),
    Atts(CopyGlobalAttributes),
    Vars(DefineVariables),
    EndDef,
    Data(CopyVariableData),
    Close(Part),
    CloseOut,
}

impl Stage {
    spec fn model(self) -> MergeStage {
        match self {
            Stage::Lock => MergeStage::Lock,
            Stage::Open(part) => MergeStage::Open(part),
            Stage::Create => MergeStage::Create,
            Stage::Dims(s) => MergeStage::Dims(s@),
            Stage::Atts(s) => MergeStage::Atts(s@),
            Stage::Vars(s) => MergeStage::Vars(s@),
            Stage::EndDef => MergeStage::EndDef,
            Stage::Data(s) => MergeStage::Data(s@),
            Stage::Close(part) => MergeStage::Close(part),
            Stage::CloseOut => MergeStage::CloseOut,
        }
    }
}

/// What a merge has learnt and done so far.
struct Job<'a> {
    a: &'a [u8],
    b: &'a [u8],
    ncid_a: i32,
    ncid_b: i32,
    ncid_out: i32,
    out_dims: StringHashMap<(usize, i32)>,
    dim_map_a: Vec<i32>,
    dim_map_b: Vec<i32>,
    copied_atts: StringHashSet,
    copied_vars: StringHashSet,
    vars_a: Vec<(i32, i32)>,
    vars_b: Vec<(i32, i32)>,
}

impl<'a> Job<'a> {
    spec fn state(self, stage: MergeStage) -> MergeState {
        MergeState {
            a: self.a@,
            b: self.b@,
            ncid_a: self.ncid_a,
            ncid_b: self.ncid_b,
            ncid_out: self.ncid_out,
            out_dims: self.out_dims@,
            dim_map_a: self.dim_map_a@,
            dim_map_b: self.dim_map_b@,
            copied_atts: self.copied_atts@,
            copied_vars: self.copied_vars@,
            vars_a: self.vars_a@,
            vars_b: self.vars_b@,
            stage,
        }
    }

    /// The memory that the output is first given can be counted.
    spec fn inv(self) -> bool {
        self.a@.len() + self.b@.len() + SPARE_OUTPUT_SIZE <= usize::MAX
    }
}

/// A merge that waits for the reply to a call.
pub struct Running<'a> {
    job: Job<'a>,
    stage: Stage,
}

impl<'a> View for Running<'a> {
    type V = MergeState;

    closed spec fn view(&self) -> MergeState {
        self.job.state(self.stage.model())
    }
}

/// A merge of two NetCDF-4 files: it waits for the reply to a call, or is finished with the
/// bytes of the combined file or an error message.
pub enum Merge<'a> {
    Running(Running<'a>),
    Finished(Result<Vec<u8>, String>),
}

impl<'a> View for Merge<'a> {
    type V = MergeModel;

    open spec fn view(&self) -> MergeModel {
        match *self {
            Merge::Running(m) => MergeModel::Running(m@),
            Merge::Finished(Ok(bytes)) => MergeModel::Finished(Ok(bytes@)),
            Merge::Finished(Err(e)) => MergeModel::Finished(Err(e@)),
        }
    }
}

/// A copy of `ids`.
fn copy_ids(ids: &Vec<i32>) -> (c: Vec<i32>)
    ensures
        c@ == ids@,
{
    let mut c: Vec<i32> = Vec::new();
    let mut i: usize = 0;
    while i < ids.len()
        invariant
            i <= ids@.len(),
            c@ == ids@.take(i as int),
        decreases ids@.len() - i,
    {
        c.push(ids[i]);
        i = i + 1;
        assert(c@ =~= ids@.take(i as int));
    }
    assert(ids@.take(i as int) =~= ids@);
    c
}

/// A copy of `pairs`.
fn copy_pairs(pairs: &Vec<(i32, i32)>) -> (c: Vec<(i32, i32)>)
    ensures
        c@ == pairs@,
{
    let mut c: Vec<(i32, i32)> = Vec::new();
    let mut i: usize = 0;
    while i < pairs.len()
        invariant
            i <= pairs@.len(),
            c@ == pairs@.take(i as int),
        decreases pairs@.len() - i,
    {
        c.push(pairs[i]);
        i = i + 1;
        assert(c@ =~= pairs@.take(i as int));
    }
    assert(pairs@.take(i as int) =~= pairs@);
    c
}

impl<'a> Job<'a> {
    /// Waits for the call of `stage`.
    fn to(self, stage: Stage) -> (m: Merge<'a>)
        requires
            self.inv(),
        ensures
            m@ == MergeModel::Running(self.state(stage.model())),
    {
        Merge::Running(Running { job: self, stage })
    }

    /// Goes on after a step of the copying of dimensions from `part`.
    fn after_dims(self, part: Part, step: Step<CopyDimensions, Vec<i32>, String>) -> (m: Merge<'a>)
        requires
            self.inv(),
        ensures
            m@ == self.state(MergeStage::Lock).after_dims(part, step@),
    {
        match step {
            Step::More(s) => self.to(Stage::Dims(s)),
            Step::Failed(e) => Merge::Finished(Err(e)),
            Step::Done(dim_map) => match part {
                Part::A => {
                    let next = CopyDimensions::start(Part::B, self.ncid_b, self.ncid_out);
                    Job { dim_map_a: dim_map, ..self }.to(Stage::Dims(next))
                },
                Part::B => {
                    let next = CopyGlobalAttributes::start(Part::A, self.ncid_a, self.ncid_out);
                    Job { dim_map_b: dim_map, ..self }.to(Stage::Atts(next))
                },
            },
        }
    }

    /// Goes on after a step of the copying of global attributes from `part`.
    fn after_atts(self, part: Part, step: Step<CopyGlobalAttributes, (), String>) -> (m: Merge<'a>)
        requires
            self.inv(),
        ensures
            m@ == self.state(MergeStage::Lock).after_atts(part, step@),
    {
        match step {
            Step::More(s) => self.to(Stage::Atts(s)),
            Step::Failed(e) => Merge::Finished(Err(e)),
            Step::Done(()) => match part {
                Part::A => {
                    let next = CopyGlobalAttributes::start(Part::B, self.ncid_b, self.ncid_out);
                    self.to(Stage::Atts(next))
                },
                Part::B => {
                    let next = DefineVariables::start(
                        Part::A,
                        self.ncid_a,
                        self.ncid_out,
                        copy_ids(&self.dim_map_a),
                    );
                    self.to(Stage::Vars(next))
                },
            },
        }
    }

    /// Goes on after a step of the copying of variable definitions from `part`.
    fn after_vars(self, part: Part, step: Step<DefineVariables, Vec<(i32, i32)>, String>) -> (m:
        Merge<'a>)
        requires
            self.inv(),
        ensures
            m@ == self.state(MergeStage::Lock).after_vars(part, step@),
    {
        match step {
            Step::More(s) => self.to(Stage::Vars(s)),
            Step::Failed(e) => Merge::Finished(Err(e)),
            Step::Done(pairs) => match part {
                Part::A => {
                    let next = DefineVariables::start(
                        Part::B,
                        self.ncid_b,
                        self.ncid_out,
                        copy_ids(&self.dim_map_b),
                    );
                    Job { vars_a: pairs, ..self }.to(Stage::Vars(next))
                },
                Part::B => Job { vars_b: pairs, ..self }.to(Stage::EndDef),
            },
        }
    }

    /// Goes on after a step of the copying of values from part B.
    fn after_data_b(self, step: Step<CopyVariableData, (), String>) -> (m: Merge<'a>)
        requires
            self.inv(),
        ensures
            m@ == self.state(MergeStage::Lock).after_data_b(step@),
    {
        match step {
            Step::More(s) => self.to(Stage::Data(s)),
            Step::Failed(e) => Merge::Finished(Err(e)),
            Step::Done(()) => self.to(Stage::Close(Part::A)),
        }
    }

    /// Goes on after a step of the copying of values from part A.
    fn after_data_a(self, step: Step<CopyVariableData, (), String>) -> (m: Merge<'a>)
        requires
            self.inv(),
        ensures
            m@ == self.state(MergeStage::Lock).after_data_a(step@),
    {
        match step {
            Step::More(s) => self.to(Stage::Data(s)),
            Step::Failed(e) => Merge::Finished(Err(e)),
            Step::Done(()) => {
                let next = CopyVariableData::start(
                    Part::B,
                    self.ncid_b,
                    self.ncid_out,
                    copy_pairs(&self.vars_b),
                );
                self.after_data_b(next)
            },
        }
    }
}

impl<'a> Running<'a> {
    #[verifier::type_invariant]
    spec fn inv(self) -> bool {
        self.job.inv()
    }

    /// The call that is waited for.
    pub fn request(&self) -> (r: Request<'_>)
        ensures
            r@ == self@.request(),
            r@.c_names(),
    {
        proof {
            use_type_invariant(self);
        }
        match &self.stage {
            Stage::Lock => Request::Lock,
            Stage::Open(Part::A) => Request::OpenMem {
                path: "memory_part_a",
                mode: NC_NOWRITE,
                memory: self.job.a,
            },
            Stage::Open(Part::B) => Request::OpenMem {
                path: "memory_part_b",
                mode: NC_NOWRITE,
                memory: self.job.b,
            },
            Stage::Create => Request::CreateMem {
                path: "memory_combined",
                mode: NC_NETCDF4,
                initial_size: self.job.a.len() + self.job.b.len() + SPARE_OUTPUT_SIZE,
            },
            Stage::Dims(s) => s.request(),
            Stage::Atts(s) => s.request(),
            Stage::Vars(s) => s.request(),
            Stage::EndDef => Request::EndDef { ncid: self.job.ncid_out },
            Stage::Data(s) => s.request(),
            Stage::Close(Part::A) => Request::Close { ncid: self.job.ncid_a },
            Stage::Close(Part::B) => Request::Close { ncid: self.job.ncid_b },
            Stage::CloseOut => Request::CloseMemio { ncid: self.job.ncid_out },
        }
    }

    /// Goes on from the reply to the call that was waited for.
    pub fn resume(self, reply: Reply) -> (m: Merge<'a>)
        ensures
            m@ == self@.resume(reply@),
    {
        proof {
            use_type_invariant(&self);
        }
        let Running { job, stage } = self;
        match stage {
            Stage::Lock => match reply.check("") {
                Err(_) => Merge::Finished(Err("Could not acquire NetCDF-C lock".to_owned())),
                Ok(()) => job.to(Stage::Open(Part::A)),
            },
            Stage::Open(Part::A) => match reply.check("Could not open part_a from memory") {
                Err(e) => Merge::Finished(Err(e)),
                Ok(()) => Job { ncid_a: reply.id, ..job }.to(Stage::Open(Part::B)),
            },
            Stage::Open(Part::B) => match reply.check("Could not open part_b from memory") {
                Err(e) => Merge::Finished(Err(e)),
                Ok(()) => Job { ncid_b: reply.id, ..job }.to(Stage::Create),
            },
            Stage::Create => match reply.check("Could not create output NetCDF-4 file in memory") {
                Err(e) => Merge::Finished(Err(e)),
                Ok(()) => {
                    let next = CopyDimensions::start(Part::A, job.ncid_a, reply.id);
                    Job { ncid_out: reply.id, ..job }.to(Stage::Dims(next))
                },
            },
            Stage::Dims(s) => {
                let mut job = job;
                let part = s.part();
                let step = s.resume(&mut job.out_dims, reply);
                job.after_dims(part, step)
            },
            Stage::Atts(s) => {
                let mut job = job;
                let part = s.part();
                let step = s.resume(&mut job.copied_atts, reply);
                job.after_atts(part, step)
            },
            Stage::Vars(s) => {
                let mut job = job;
                let part = s.part();
                let step = s.resume(&mut job.copied_vars, reply);
                job.after_vars(part, step)
            },
            Stage::EndDef => match reply.check("Could not leave define mode") {
                Err(e) => Merge::Finished(Err(e)),
                Ok(()) => {
                    let next = CopyVariableData::start(
                        Part::A,
                        job.ncid_a,
                        job.ncid_out,
                        copy_pairs(&job.vars_a),
                    );
                    job.after_data_a(next)
                },
            },
            Stage::Data(s) => match s.part() {
                Part::A => job.after_data_a(s.resume(reply)),
                Part::B => job.after_data_b(s.resume(reply)),
            },
            Stage::Close(Part::A) => match reply.check("Could not close part_a") {
                Err(e) => Merge::Finished(Err(e)),
                Ok(()) => job.to(Stage::Close(Part::B)),
            },
            Stage::Close(Part::B) => match reply.check("Could not close part_b") {
                Err(e) => Merge::Finished(Err(e)),
                Ok(()) => job.to(Stage::CloseOut),
            },
            Stage::CloseOut => match reply.check("Could not close output memory NetCDF") {
                Err(e) => Merge::Finished(Err(e)),
                Ok(()) => if reply.data.len() == 0 {
                    Merge::Finished(Err("NetCDF-C returned empty output memory".to_owned()))
                } else {
                    Merge::Finished(Ok(reply.data))
                },
            },
        }
    }
}

/// Begins to combine the NetCDF-4 files whose bytes are `a` and `b`.
///
/// Every merge first asks for the lock that keeps all others out of NetCDF-C.
pub fn combine_netcdf4_in_memory<'a>(a: &'a [u8], b: &'a [u8]) -> (m: Merge<'a>)
    requires
        a@.len() + b@.len() + SPARE_OUTPUT_SIZE <= usize::MAX,
    ensures
        m@ == MergeModel::start(a@, b@),
{
    Job {
        a,
        b,
        ncid_a: -1,
        ncid_b: -1,
        ncid_out: -1,
        out_dims: StringHashMap::new(),
        dim_map_a: Vec::new(),
        dim_map_b: Vec::new(),
        copied_atts: StringHashSet::new(),
        copied_vars: StringHashSet::new(),
        vars_a: Vec::new(),
        vars_b: Vec::new(),
    }.to(Stage::Lock)
}

} // verus!
