//! Copying the dimensions of one part into the output.

use vstd::hash_map::StringHashMap;
use vstd::prelude::*;
use crate::inquiry::{file_counts, inquire_file};
use crate::names::{c_name, cstr_to_string, lemma_decoded_names_are_c_names, name_in};
use crate::protocol::{Answer, Call, Part, Reply, Request, Step};
use crate::text::{decimal, i32_text, join2, join3, join4, u64_text};

verus! {

/// Where the copying of dimensions stands: which call it waits for.
///
/// `dimid` is the source dimension in hand, one of `ndims`.
#[verifier::ext_equal]
pub enum DimStage {
    Count,
    Read { ndims: i32, dimid: i32 },
    Define { ndims: i32, dimid: i32, name: Seq<char>, len: usize },
}

/// The model of [`CopyDimensions`].
#[verifier::ext_equal]
pub struct DimState {
    /// The part whose dimensions are copied.
    pub part: Part,
    /// The dataset that they come from.
    pub src: i32,
    /// The dataset that they go to.
    pub dst: i32,
    /// The output dimension of each source dimension copied so far.
    pub dim_map: Seq<i32>,
    pub stage: DimStage,
}

/// The dimensions that the output has: the length and the ID of each, by its name.
pub type OutDims = Map<Seq<char>, (usize, i32)>;

/// What a step of the copying comes to; once done, it gives the output dimension of each source
/// dimension.
pub type DimStep = Step<DimState, Seq<i32>, Seq<char>>;

/// The error for a dimension that the output has under the same name with another length.
pub open spec fn conflict_text(name: Seq<char>, existing: usize, part: Part, len: usize) -> Seq<
    char,
> {
    "Dimension conflict for `"@ + name + "`: existing length is "@ + decimal(existing as int) + (
    ", but "@ + part.spec_label() + " has length "@ + decimal(len as int))
}

impl DimState {
    /// The state in which the copying begins.
    pub open spec fn start(part: Part, src: i32, dst: i32) -> DimState {
        DimState { part, src, dst, dim_map: Seq::empty(), stage: DimStage::Count }
    }

    /// The dimension in hand exists, and its name can be a C string.
    pub open spec fn wf(self) -> bool {
        match self.stage {
            DimStage::Count => true,
            DimStage::Read { ndims, dimid } => 0 <= dimid < ndims,
            DimStage::Define { ndims, dimid, name, len } => 0 <= dimid < ndims && c_name(name),
        }
    }

    /// The call that is waited for.
    pub open spec fn request(self) -> Call {
        match self.stage {
            DimStage::Count => Call::Inq { ncid: self.src },
            DimStage::Read { ndims, dimid } => Call::InqDim { ncid: self.src, dimid },
            DimStage::Define { ndims, dimid, name, len } => Call::DefDim {
                ncid: self.dst,
                name,
                len,
            },
        }
    }

    /// Going on with the dimension `dimid`, or done where there is none left.
    pub open spec fn at_dim(self, ndims: i32, dimid: int) -> DimStep {
        if dimid < ndims {
            Step::More(
                DimState { stage: DimStage::Read { ndims, dimid: dimid as i32 }, ..self },
            )
        } else {
            Step::Done(self.dim_map)
        }
    }

    /// Going on with the dimension after `dimid`, which is the dimension `id` of the output.
    pub open spec fn mapped(self, ndims: i32, dimid: i32, id: i32) -> DimStep {
        DimState { dim_map: self.dim_map.push(id), ..self }.at_dim(ndims, dimid + 1)
    }

    /// What becomes of a source dimension that was read: an output dimension of the same name
    /// and length is used again, one of another length is a conflict, and where there is none it
    /// is defined.
    pub open spec fn with_dimension(
        self,
        out: OutDims,
        ndims: i32,
        dimid: i32,
        name: Seq<char>,
        len: usize,
    ) -> DimStep {
        if !out.contains_key(name) {
            Step::More(DimState { stage: DimStage::Define { ndims, dimid, name, len }, ..self })
        } else if out[name].0 != len {
            Step::Failed(conflict_text(name, out[name].0, self.part, len))
        } else {
            self.mapped(ndims, dimid, out[name].1)
        }
    }

    /// What the answer `r` leads to. `out` are the dimensions of the output; those that it has
    /// afterwards come first.
    pub open spec fn resume(self, out: OutDims, r: Answer) -> (OutDims, DimStep) {
        match self.stage {
            DimStage::Count => match file_counts(r, self.part) {
                Err(e) => (out, Step::Failed(e)),
                Ok((ndims, _, _, _)) => (out, self.at_dim(ndims, 0)),
            },
            DimStage::Read { ndims, dimid } => if !r.ok() {
                (
                    out,
                    Step::Failed(
                        r.failure(
                            "Could not read dimension "@ + decimal(dimid as int) + " from "@
                                + self.part.spec_label(),
                        ),
                    ),
                )
            } else {
                match name_in(r.name) {
                    Err(e) => (out, Step::Failed(e)),
                    Ok(name) => (out, self.with_dimension(out, ndims, dimid, name, r.len)),
                }
            },
            DimStage::Define { ndims, dimid, name, len } => if !r.ok() {
                (
                    out,
                    Step::Failed(r.failure("Could not define output dimension `"@ + name + "`"@)),
                )
            } else {
                (out.insert(name, (len, r.id)), self.mapped(ndims, dimid, r.id))
            },
        }
    }
}

/// The call that is waited for, with what it needs.
enum Stage {
    Count,
    Read { ndims: i32, dimid: i32 },
    Define { ndims: i32, dimid: i32, name: String, len: usize },
}

impl Stage {
    spec fn model(self) -> DimStage {
        match self {
            Stage::Count => DimStage::Count,
            Stage::Read { ndims, dimid } => DimStage::Read { ndims, dimid },
            Stage::Define { ndims, dimid, name, len } => DimStage::Define {
                ndims,
                dimid,
                name: name@,
                len,
            },
        }
    }
}

/// What is copied where, and what has been.
struct Job {
    part: Part,
    src: i32,
    dst: i32,
    dim_map: Vec<i32>,
}

impl Job {
    spec fn state(self, stage: DimStage) -> DimState {
        DimState {
            part: self.part,
            src: self.src,
            dst: self.dst,
            dim_map: self.dim_map@,
            stage,
        }
    }
}

/// The copying of the dimensions of one part.
///
/// Each source dimension is defined in the output, or is matched with the output dimension of
/// the same name and length.
pub struct CopyDimensions {
    job: Job,
    stage: Stage,
}

impl View for CopyDimensions {
    type V = DimState;

    closed spec fn view(&self) -> DimState {
        self.job.state(self.stage.model())
    }
}

impl Job {
    /// Goes on with the dimension `dimid`.
    fn at_dim(self, ndims: i32, dimid: i32) -> (s: Step<CopyDimensions, Vec<i32>, String>)
        requires
            0 <= dimid,
        ensures
            s@ == self.state(DimStage::Count).at_dim(ndims, dimid as int),
    {
        if dimid < ndims {
            Step::More(CopyDimensions { job: self, stage: Stage::Read { ndims, dimid } })
        } else {
            Step::Done(self.dim_map)
        }
    }

    /// Goes on with the dimension after `dimid`, which is the dimension `id` of the output.
    fn mapped(self, ndims: i32, dimid: i32, id: i32) -> (s: Step<CopyDimensions, Vec<i32>, String>)
        requires
            0 <= dimid < ndims,
        ensures
            s@ == self.state(DimStage::Count).mapped(ndims, dimid, id),
    {
        let mut dim_map = self.dim_map;
        dim_map.push(id);
        Job { dim_map, ..self }.at_dim(ndims, dimid + 1)
    }

    /// Takes up the source dimension `dimid`.
    fn with_dimension(
        self,
        out: &StringHashMap<(usize, i32)>,
        ndims: i32,
        dimid: i32,
        name: String,
        len: usize,
    ) -> (s: Step<CopyDimensions, Vec<i32>, String>)
        requires
            0 <= dimid < ndims,
            c_name(name@),
        ensures
            s@ == self.state(DimStage::Count).with_dimension(out@, ndims, dimid, name@, len),
    {
        match out.get(name.as_str()) {
            None => Step::More(
                CopyDimensions { job: self, stage: Stage::Define { ndims, dimid, name, len } },
            ),
            Some(existing) => {
                let (existing_len, existing_id) = *existing;
                if existing_len != len {
                    Step::Failed(
                        join2(
                            join4(
                                "Dimension conflict for `",
                                name.as_str(),
                                "`: existing length is ",
                                u64_text(existing_len as u64).as_str(),
                            ).as_str(),
                            join4(
                                ", but ",
                                self.part.label(),
                                " has length ",
                                u64_text(len as u64).as_str(),
                            ).as_str(),
                        ),
                    )
                } else {
                    self.mapped(ndims, dimid, existing_id)
                }
            },
        }
    }
}

impl CopyDimensions {
    #[verifier::type_invariant]
    spec fn inv(self) -> bool {
        self@.wf()
    }

    /// Begins to copy the dimensions of `part` from the dataset `src` to the dataset `dst`.
    pub fn start(part: Part, src: i32, dst: i32) -> (s: CopyDimensions)
        ensures
            s@ == DimState::start(part, src, dst),
    {
        CopyDimensions { job: Job { part, src, dst, dim_map: Vec::new() }, stage: Stage::Count }
    }

    /// The part whose dimensions are copied.
    pub fn part(&self) -> (p: Part)
        ensures
            p == self@.part,
    {
        self.job.part
    }

    /// The call that is waited for.
    pub fn request(&self) -> (r: Request<'_>)
        ensures
            r@ == self@.request(),
            r@.c_names(),
    {
        proof {
            use_type_invariant(self);
        }
        match &self.stage {
            Stage::Count => Request::Inq { ncid: self.job.src },
            Stage::Read { ndims: _, dimid } => Request::InqDim {
                ncid: self.job.src,
                dimid: *dimid,
            },
            Stage::Define { ndims: _, dimid: _, name, len } => Request::DefDim {
                ncid: self.job.dst,
                name: name.as_str(),
                len: *len,
            },
        }
    }

    /// Goes on from the reply to the call that was waited for. `out` are the dimensions that the
    /// output has.
    pub fn resume(self, out: &mut StringHashMap<(usize, i32)>, reply: Reply) -> (s: Step<
        CopyDimensions,
        Vec<i32>,
        String,
    >)
        ensures
            (final(out)@, s@) == self@.resume(old(out)@, reply@),
    {
        proof {
            use_type_invariant(&self);
            lemma_decoded_names_are_c_names(reply.name@);
        }
        let CopyDimensions { job, stage } = self;
        match stage {
            Stage::Count => match inquire_file(&reply, job.part) {
                Err(e) => Step::Failed(e),
                Ok((ndims, _, _, _)) => job.at_dim(ndims, 0),
            },
            Stage::Read { ndims, dimid } => {
                let context = join4(
                    "Could not read dimension ",
                    i32_text(dimid).as_str(),
                    " from ",
                    job.part.label(),
                );
                match reply.check(context.as_str()) {
                    Err(e) => Step::Failed(e),
                    Ok(()) => match cstr_to_string(reply.name.as_slice()) {
                        Err(e) => Step::Failed(e),
                        Ok(name) => job.with_dimension(out, ndims, dimid, name, reply.len),
                    },
                }
            },
            Stage::Define { ndims, dimid, name, len } => {
                let context = join3("Could not define output dimension `", name.as_str(), "`");
                match reply.check(context.as_str()) {
                    Err(e) => Step::Failed(e),
                    Ok(()) => {
                        out.insert(name, (len, reply.id));
                        job.mapped(ndims, dimid, reply.id)
                    },
                }
            },
        }
    }
}

} // verus!
