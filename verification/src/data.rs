//! Copying the values of the variables of one part into the output.

use vstd::prelude::*;
use crate::inquiry::{nc_type_size, type_size};
use crate::names::{cstr_to_string, name_in};
use crate::protocol::{
    check_nc, failure_text, Answer, Call, Part, Reply, Request, Step, NC_NOERR, NC_STRING,
};
use crate::text::{decimal, i32_text, join3, join4};

verus! {

/// Where the copying of values stands: which call it waits for.
///
/// `name` is the variable in hand. `count` is the number of its elements, or, while the length
/// of its `i`-th dimension is asked for, of the elements along the dimensions before that.
#[verifier::ext_equal]
pub enum DataStage {
    Inspect,
    TypeSize { name: Seq<char>, xtype: i32, dimids: Seq<i32> },
    DimLen {
        name: Seq<char>,
        xtype: i32,
        elem_size: usize,
        dimids: Seq<i32>,
        i: int,
        count: usize,
    },
    GetStrings { name: Seq<char>, count: usize },
    PutStrings { name: Seq<char>, count: usize },
    FreeStrings { name: Seq<char>, count: usize, put_status: i32, put_message: Seq<char> },
    Get { name: Seq<char>, size: usize },
    Put { name: Seq<char>, data: Seq<u8> },
}

/// The model of [`CopyVariableData`].
#[verifier::ext_equal]
pub struct DataState {
    /// The part whose values are copied.
    pub part: Part,
    /// The dataset that they come from.
    pub src: i32,
    /// The dataset that they go to.
    pub dst: i32,
    /// The source and the output ID of each variable to copy.
    pub pairs: Seq<(i32, i32)>,
    /// The position among `pairs` of the variable in hand.
    pub at: int,
    pub stage: DataStage,
}

/// What a step of the copying comes to.
pub type DataStep = Step<DataState, (), Seq<char>>;

/// The error for a variable whose elements, or their bytes, are more than can be counted.
pub open spec fn too_large_text(name: Seq<char>) -> Seq<char> {
    "Variable `"@ + name + "` is too large"@
}

impl DataState {
    /// What the copying begins with.
    pub open spec fn start(part: Part, src: i32, dst: i32, pairs: Seq<(i32, i32)>) -> DataStep {
        DataState { part, src, dst, pairs, at: 0, stage: DataStage::Inspect }.at_pair(0)
    }

    /// The variable in hand, and the dimension in hand where there is one, exist.
    pub open spec fn wf(self) -> bool {
        &&& 0 <= self.at < self.pairs.len()
        &&& self.stage matches DataStage::DimLen { dimids, i, .. } ==> 0 <= i < dimids.len()
    }

    /// The source ID of the variable in hand.
    pub open spec fn src_varid(self) -> i32 {
        self.pairs[self.at].0
    }

    /// The output ID of the variable in hand.
    pub open spec fn dst_varid(self) -> i32 {
        self.pairs[self.at].1
    }

    /// The call that is waited for.
    pub open spec fn request(self) -> Call {
        match self.stage {
            DataStage::Inspect => Call::InqVar { ncid: self.src, varid: self.src_varid() },
            DataStage::TypeSize { name, xtype, dimids } => Call::InqType { ncid: self.src, xtype },
            DataStage::DimLen { name, xtype, elem_size, dimids, i, count } => Call::InqDimLen {
                ncid: self.src,
                dimid: dimids[i],
            },
            DataStage::GetStrings { name, count } => Call::GetVarString {
                ncid: self.src,
                varid: self.src_varid(),
                count,
            },
            DataStage::PutStrings { name, count } => Call::PutVarString {
                ncid: self.dst,
                varid: self.dst_varid(),
            },
            DataStage::FreeStrings { name, count, put_status, put_message } => Call::FreeString {
                count,
            },
            DataStage::Get { name, size } => Call::GetVar {
                ncid: self.src,
                varid: self.src_varid(),
                size,
            },
            DataStage::Put { name, data } => Call::PutVar {
                ncid: self.dst,
                varid: self.dst_varid(),
                data,
            },
        }
    }

    /// Waiting for the call of `stage`.
    pub open spec fn to(self, stage: DataStage) -> DataStep {
        Step::More(DataState { stage, ..self })
    }

    /// Going on with the variable at the position `at`, or done where there is none left.
    pub open spec fn at_pair(self, at: int) -> DataStep {
        if at < self.pairs.len() {
            DataState { at, ..self }.to(DataStage::Inspect)
        } else {
            Step::Done(())
        }
    }

    /// Going on with the `i`-th dimension of a variable, or with its values where all its
    /// dimensions are multiplied.
    pub open spec fn at_dim(
        self,
        name: Seq<char>,
        xtype: i32,
        elem_size: usize,
        dimids: Seq<i32>,
        i: int,
        count: usize,
    ) -> DataStep {
        if i < dimids.len() {
            self.to(DataStage::DimLen { name, xtype, elem_size, dimids, i, count })
        } else if xtype == NC_STRING {
            self.to(DataStage::GetStrings { name, count })
        } else if count * elem_size <= usize::MAX {
            self.to(DataStage::Get { name, size: (count * elem_size) as usize })
        } else {
            Step::Failed(too_large_text(name))
        }
    }

    /// What the answer `r` leads to.
    pub open spec fn resume(self, r: Answer) -> DataStep {
        match self.stage {
            DataStage::Inspect => if !r.ok() {
                Step::Failed(
                    r.failure(
                        "Could not inspect variable data for varid "@ + decimal(
                            self.src_varid() as int,
                        ) + " from "@ + self.part.spec_label(),
                    ),
                )
            } else {
                match name_in(r.name) {
                    Err(e) => Step::Failed(e),
                    Ok(name) => self.to(
                        DataStage::TypeSize { name, xtype: r.xtype, dimids: r.dimids },
                    ),
                }
            },
            DataStage::TypeSize { name, xtype, dimids } => match type_size(r, xtype) {
                Err(e) => Step::Failed(e),
                Ok(elem_size) => self.at_dim(name, xtype, elem_size, dimids, 0, 1),
            },
            DataStage::DimLen { name, xtype, elem_size, dimids, i, count } => if !r.ok() {
                Step::Failed(
                    r.failure(
                        "Could not inspect dimension length for variable `"@ + name + "`"@,
                    ),
                )
            } else if count * r.len <= usize::MAX {
                self.at_dim(name, xtype, elem_size, dimids, i + 1, (count * r.len) as usize)
            } else {
                Step::Failed(too_large_text(name))
            },
            DataStage::GetStrings { name, count } => if !r.ok() {
                Step::Failed(
                    r.failure(
                        "Could not read string data for variable `"@ + name + "` from "@
                            + self.part.spec_label(),
                    ),
                )
            } else {
                self.to(DataStage::PutStrings { name, count })
            },
            DataStage::PutStrings { name, count } => self.to(
                DataStage::FreeStrings {
                    name,
                    count,
                    put_status: r.status,
                    put_message: r.message,
                },
            ),
            DataStage::FreeStrings { name, count, put_status, put_message } => if put_status
                != NC_NOERR {
                Step::Failed(
                    failure_text(
                        "Could not write string data for variable `"@ + name + "` to output"@,
                        put_message,
                    ),
                )
            } else if !r.ok() {
                Step::Failed(
                    r.failure("Could not free string data for variable `"@ + name + "`"@),
                )
            } else {
                self.at_pair(self.at + 1)
            },
            DataStage::Get { name, size } => if !r.ok() {
                Step::Failed(
                    r.failure(
                        "Could not read data for variable `"@ + name + "` from "@
                            + self.part.spec_label(),
                    ),
                )
            } else {
                self.to(DataStage::Put { name, data: r.data })
            },
            DataStage::Put { name, data } => if !r.ok() {
                Step::Failed(
                    r.failure("Could not write data for variable `"@ + name + "` to output"@),
                )
            } else {
                self.at_pair(self.at + 1)
            },
        }
    }
}

/// The call that is waited for, with what it needs.
enum Stage {
    Inspect,
    TypeSize { name: String, xtype: i32, dimids: Vec<i32> },
    DimLen {
        name: String,
        xtype: i32,
        elem_size: usize,
        dimids: Vec<i32>,
        i: usize,
        count: usize,
    },
    GetStrings { name: String, count: usize },
    PutStrings { name: String, count: usize },
    FreeStrings { name: String, count: usize, put_status: i32, put_message: String },
    Get { name: String, size: usize },
    Put { name: String, data: Vec<u8> },
}

impl Stage {
    spec fn model(self) -> DataStage {
        match self {
            Stage::Inspect => DataStage::Inspect,
            Stage::TypeSize { name, xtype, dimids } => DataStage::TypeSize {
                name: name@,
                xtype,
                dimids: dimids@,
            },
            Stage::DimLen { name, xtype, elem_size, dimids, i, count } => DataStage::DimLen {
                name: name@,
                xtype,
                elem_size,
                dimids: dimids@,
                i: i as int,
                count,
            },
            Stage::GetStrings { name, count } => DataStage::GetStrings { name: name@, count },
            Stage::PutStrings { name, count } => DataStage::PutStrings { name: name@, count },
            Stage::FreeStrings { name, count, put_status, put_message } => DataStage::FreeStrings {
                name: name@,
                count,
                put_status,
                put_message: put_message@,
            },
            Stage::Get { name, size } => DataStage::Get { name: name@, size },
            Stage::Put { name, data } => DataStage::Put { name: name@, data: data@ },
        }
    }
}

/// What is copied where, and how far it has come.
struct Job {
    part: Part,
    src: i32,
    dst: i32,
    pairs: Vec<(i32, i32)>,
    at: usize,
}

impl Job {
    spec fn state(self, stage: DataStage) -> DataState {
        DataState {
            part: self.part,
            src: self.src,
            dst: self.dst,
            pairs: self.pairs@,
            at: self.at as int,
            stage,
        }
    }
}

/// The copying of the values of the variables of one part into output variables that are
/// defined already.
///
/// The values of a variable of strings are copied through NetCDF-C's string calls; those of
/// every other variable as one buffer of bytes, whose size is the number of its elements times
/// the size of one.
pub struct CopyVariableData {
    job: Job,
    stage: Stage,
}

impl View for CopyVariableData {
    type V = DataState;

    closed spec fn view(&self) -> DataState {
        self.job.state(self.stage.model())
    }
}

impl Job {
    /// Goes on with the variable at the position `at`.
    fn at_pair(self, at: usize) -> (s: Step<CopyVariableData, (), String>)
        ensures
            s@ == self.state(DataStage::Inspect).at_pair(at as int),
    {
        if at < self.pairs.len() {
            Step::More(CopyVariableData { job: Job { at, ..self }, stage: Stage::Inspect })
        } else {
            Step::Done(())
        }
    }

    /// Goes on with the `i`-th dimension of the variable `name`.
    fn at_dim(
        self,
        name: String,
        xtype: i32,
        elem_size: usize,
        dimids: Vec<i32>,
        i: usize,
        count: usize,
    ) -> (s: Step<CopyVariableData, (), String>)
        requires
            self.at < self.pairs@.len(),
        ensures
            s@ == self.state(DataStage::Inspect).at_dim(
                name@,
                xtype,
                elem_size,
                dimids@,
                i as int,
                count,
            ),
    {
        if i < dimids.len() {
            Step::More(
                CopyVariableData {
                    job: self,
                    stage: Stage::DimLen { name, xtype, elem_size, dimids, i, count },
                },
            )
        } else if xtype == NC_STRING {
            Step::More(CopyVariableData { job: self, stage: Stage::GetStrings { name, count } })
        } else {
            match count.checked_mul(elem_size) {
                Some(size) => Step::More(
                    CopyVariableData { job: self, stage: Stage::Get { name, size } },
                ),
                None => Step::Failed(join3("Variable `", name.as_str(), "` is too large")),
            }
        }
    }
}

impl CopyVariableData {
    #[verifier::type_invariant]
    spec fn inv(self) -> bool {
        self@.wf()
    }

    /// Begins to copy the values of the variables of `part` from the dataset `src` to the
    /// dataset `dst`. `pairs` are the source and the output ID of each variable.
    pub fn start(part: Part, src: i32, dst: i32, pairs: Vec<(i32, i32)>) -> (s: Step<
        CopyVariableData,
        (),
        String,
    >)
        ensures
            s@ == DataState::start(part, src, dst, pairs@),
    {
        Job { part, src, dst, pairs, at: 0 }.at_pair(0)
    }

    /// The part whose values are copied.
    pub fn part(&self) -> (p: Part)
        ensures
            p == self@.part,
    {
        self.job.part
    }

    /// The call that is waited for.
    pub fn request(&self) -> (r: Request<'_>)
        ensures
            r@ == self@.request(),
            r@.c_names(),
    {
        proof {
            use_type_invariant(self);
        }
        let (src_varid, dst_varid) = self.job.pairs[self.job.at];
        match &self.stage {
            Stage::Inspect => Request::InqVar { ncid: self.job.src, varid: src_varid },
            Stage::TypeSize { name: _, xtype, dimids: _ } => Request::InqType {
                ncid: self.job.src,
                xtype: *xtype,
            },
            Stage::DimLen { name: _, xtype: _, elem_size: _, dimids, i, count: _ } =>
                Request::InqDimLen { ncid: self.job.src, dimid: dimids[*i] },
            Stage::GetStrings { name: _, count } => Request::GetVarString {
                ncid: self.job.src,
                varid: src_varid,
                count: *count,
            },
            Stage::PutStrings { name: _, count: _ } => Request::PutVarString {
                ncid: self.job.dst,
                varid: dst_varid,
            },
            Stage::FreeStrings { name: _, count, put_status: _, put_message: _ } =>
                Request::FreeString { count: *count },
            Stage::Get { name: _, size } => Request::GetVar {
                ncid: self.job.src,
                varid: src_varid,
                size: *size,
            },
            Stage::Put { name: _, data } => Request::PutVar {
                ncid: self.job.dst,
                varid: dst_varid,
                data: data.as_slice(),
            },
        }
    }

    /// Goes on from the reply to the call that was waited for.
    pub fn resume(self, reply: Reply) -> (s: Step<CopyVariableData, (), String>)
        ensures
            s@ == self@.resume(reply@),
    {
        proof {
            use_type_invariant(&self);
        }
        let CopyVariableData { job, stage } = self;
        let (src_varid, _) = job.pairs[job.at];
        assert(job.at < job.pairs.len());
        match stage {
            Stage::Inspect => {
                let context = join4(
                    "Could not inspect variable data for varid ",
                    i32_text(src_varid).as_str(),
                    " from ",
                    job.part.label(),
                );
                match reply.check(context.as_str()) {
                    Err(e) => Step::Failed(e),
                    Ok(()) => match cstr_to_string(reply.name.as_slice()) {
                        Err(e) => Step::Failed(e),
                        Ok(name) => Step::More(
                            CopyVariableData {
                                job,
                                stage: Stage::TypeSize {
                                    name,
                                    xtype: reply.xtype,
                                    dimids: reply.dimids,
                                },
                            },
                        ),
                    },
                }
            },
            Stage::TypeSize { name, xtype, dimids } => match nc_type_size(&reply, xtype) {
                Err(e) => Step::Failed(e),
                Ok(elem_size) => job.at_dim(name, xtype, elem_size, dimids, 0, 1),
            },
            Stage::DimLen { name, xtype, elem_size, dimids, i, count } => {
                let context = join3(
                    "Could not inspect dimension length for variable `",
                    name.as_str(),
                    "`",
                );
                assert(i < dimids.len());
                match reply.check(context.as_str()) {
                    Err(e) => Step::Failed(e),
                    Ok(()) => match count.checked_mul(reply.len) {
                        Some(product) => job.at_dim(name, xtype, elem_size, dimids, i + 1, product),
                        None => Step::Failed(join3("Variable `", name.as_str(), "` is too large")),
                    },
                }
            },
            Stage::GetStrings { name, count } => {
                let context = join4(
                    "Could not read string data for variable `",
                    name.as_str(),
                    "` from ",
                    job.part.label(),
                );
                match reply.check(context.as_str()) {
                    Err(e) => Step::Failed(e),
                    Ok(()) => Step::More(
                        CopyVariableData { job, stage: Stage::PutStrings { name, count } },
                    ),
                }
            },
            Stage::PutStrings { name, count } => Step::More(
                CopyVariableData {
                    job,
                    stage: Stage::FreeStrings {
                        name,
                        count,
                        put_status: reply.status,
                        put_message: reply.message,
                    },
                },
            ),
            Stage::FreeStrings { name, count: _, put_status, put_message } => {
                let put_context = join3(
                    "Could not write string data for variable `",
                    name.as_str(),
                    "` to output",
                );
                match check_nc(put_status, put_message.as_str(), put_context.as_str()) {
                    Err(e) => Step::Failed(e),
                    Ok(()) => {
                        let context = join3(
                            "Could not free string data for variable `",
                            name.as_str(),
                            "`",
                        );
                        match reply.check(context.as_str()) {
                            Err(e) => Step::Failed(e),
                            Ok(()) => {
                                let next: usize = job.at + 1;
                                job.at_pair(next)
                            },
                        }
                    },
                }
            },
            Stage::Get { name, size: _ } => {
                let context = join4(
                    "Could not read data for variable `",
                    name.as_str(),
                    "` from ",
                    job.part.label(),
                );
                match reply.check(context.as_str()) {
                    Err(e) => Step::Failed(e),
                    Ok(()) => Step::More(
                        CopyVariableData { job, stage: Stage::Put { name, data: reply.data } },
                    ),
                }
            },
            Stage::Put { name, data: _ } => {
                let context = join3(
                    "Could not write data for variable `",
                    name.as_str(),
                    "` to output",
                );
                match reply.check(context.as_str()) {
                    Err(e) => Step::Failed(e),
                    Ok(()) => {
                        let next: usize = job.at + 1;
                        job.at_pair(next)
                    },
                }
            },
        }
    }
}

} // verus!
