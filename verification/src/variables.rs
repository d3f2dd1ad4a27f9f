//! Copying the variable definitions of one part into the output.

use vstd::hash_set::StringHashSet;
use vstd::prelude::*;
use crate::inquiry::{att_name, file_counts, get_att_name, inquire_file};
use crate::names::{c_name, cstr_to_string, lemma_decoded_names_are_c_names, name_in};
use crate::protocol::{
    is_supported_atomic_type, supported_type, Answer, Call, Part, Reply, Request, Step,
};
use crate::text::{decimal, i32_text, join2, join3, join4, u64_text};

verus! {

/// Where the copying of variable definitions stands: which call it waits for.
///
/// `varid` is the source variable in hand, one of `nvars`; `name` is its name, `out_varid` its ID
/// in the output and `attnum` the attribute in hand, one of its `natts`.
#[verifier::ext_equal]
pub enum DefineStage {
    Count,
    Read { nvars: i32, varid: i32 },
    Define {
        nvars: i32,
        varid: i32,
        name: Seq<char>,
        xtype: i32,
        dimids: Seq<i32>,
        natts: i32,
    },
    NameAtt {
        nvars: i32,
        varid: i32,
        name: Seq<char>,
        out_varid: i32,
        natts: i32,
        attnum: i32,
    },
    CopyAtt {
        nvars: i32,
        varid: i32,
        name: Seq<char>,
        out_varid: i32,
        natts: i32,
        attnum: i32,
        att_name: Seq<char>,
    },
}

/// The model of [`DefineVariables`].
#[verifier::ext_equal]
pub struct DefineState {
    /// The part whose variables are copied.
    pub part: Part,
    /// The dataset that they come from.
    pub src: i32,
    /// The dataset that they go to.
    pub dst: i32,
    /// The output dimension of each source dimension.
    pub dim_map: Seq<i32>,
    /// The source and the output ID of each variable copied so far.
    pub pairs: Seq<(i32, i32)>,
    pub stage: DefineStage,
}

/// What a step of the copying comes to; once done, it gives the IDs of the copied variables.
pub type DefineStep = Step<DefineState, Seq<(i32, i32)>, Seq<char>>;

/// `id` as an index: a negative one wraps round to the top of the range.
pub open spec fn as_index(id: i32) -> int {
    if id < 0 {
        usize::MAX + 1 + id
    } else {
        id as int
    }
}

/// Whether `id` is a dimension of the source.
pub open spec fn known_dim(dim_map: Seq<i32>, id: i32) -> bool {
    0 <= id < dim_map.len()
}

/// Whether `i` is the position of the first of `dimids` that is no dimension of the source.
pub open spec fn first_unknown(dim_map: Seq<i32>, dimids: Seq<i32>, i: int) -> bool {
    &&& 0 <= i < dimids.len()
    &&& !known_dim(dim_map, dimids[i])
    &&& forall|j: int| 0 <= j < i ==> known_dim(dim_map, #[trigger] dimids[j])
}

/// The error for a variable on a dimension that the source does not have.
pub open spec fn unknown_dim_text(name: Seq<char>, id: i32) -> Seq<char> {
    "Variable `"@ + name + "` references unknown dimension id "@ + decimal(as_index(id))
}

/// The error for a variable whose type is not merged.
pub open spec fn unsupported_text(name: Seq<char>, part: Part, xtype: i32) -> Seq<char> {
    "Variable `"@ + name + "` from "@ + part.spec_label() + (" uses unsupported type "@ + decimal(
        xtype as int,
    )
        + ". This implementation supports primitive numeric/char and string NetCDF types only."@)
}

/// The output dimensions of a variable on the source dimensions `dimids`, or the error that
/// names the first of them that the source does not have.
pub open spec fn mapped_dims(dim_map: Seq<i32>, dimids: Seq<i32>, name: Seq<char>) -> Result<
    Seq<i32>,
    Seq<char>,
> {
    if forall|i: int| 0 <= i < dimids.len() ==> known_dim(dim_map, #[trigger] dimids[i]) {
        Ok(Seq::new(dimids.len(), |i: int| dim_map[dimids[i] as int]))
    } else {
        Err(unknown_dim_text(name, dimids[choose|i: int| first_unknown(dim_map, dimids, i)]))
    }
}

impl DefineState {
    /// The state in which the copying begins.
    pub open spec fn start(part: Part, src: i32, dst: i32, dim_map: Seq<i32>) -> DefineState {
        DefineState {
            part,
            src,
            dst,
            dim_map,
            pairs: Seq::empty(),
            stage: DefineStage::Count,
        }
    }

    /// The variable and the attribute in hand exist, and all names can be C strings.
    pub open spec fn wf(self) -> bool {
        match self.stage {
            DefineStage::Count => true,
            DefineStage::Read { nvars, varid } => 0 <= varid < nvars,
            DefineStage::Define { nvars, varid, name, xtype, dimids, natts } => {
                &&& 0 <= varid < nvars
                &&& c_name(name)
            },
            DefineStage::NameAtt { nvars, varid, name, out_varid, natts, attnum } => {
                &&& 0 <= varid < nvars
                &&& 0 <= attnum < natts
                &&& c_name(name)
            },
            DefineStage::CopyAtt { nvars, varid, name, out_varid, natts, attnum, att_name } => {
                &&& 0 <= varid < nvars
                &&& 0 <= attnum < natts
                &&& c_name(name)
                &&& c_name(att_name)
            },
        }
    }

    /// The call that is waited for.
    pub open spec fn request(self) -> Call {
        match self.stage {
            DefineStage::Count => Call::Inq { ncid: self.src },
            DefineStage::Read { nvars, varid } => Call::InqVar { ncid: self.src, varid },
            DefineStage::Define { nvars, varid, name, xtype, dimids, natts } => Call::DefVar {
                ncid: self.dst,
                name,
                xtype,
                dimids,
            },
            DefineStage::NameAtt { nvars, varid, name, out_varid, natts, attnum } =>
                Call::InqAttName { ncid: self.src, varid, attnum },
            DefineStage::CopyAtt { nvars, varid, name, out_varid, natts, attnum, att_name } =>
                Call::CopyAtt {
                    src_ncid: self.src,
                    src_varid: varid,
                    name: att_name,
                    dst_ncid: self.dst,
                    dst_varid: out_varid,
                },
        }
    }

    /// Going on with the variable `varid`, or done where there is none left.
    pub open spec fn at_var(self, nvars: i32, varid: int) -> DefineStep {
        if varid < nvars {
            Step::More(
                DefineState {
                    stage: DefineStage::Read { nvars, varid: varid as i32 },
                    ..self
                },
            )
        } else {
            Step::Done(self.pairs)
        }
    }

    /// Going on with the attribute `attnum` of a variable that is defined in the output, or with
    /// the next variable where no attribute is left.
    pub open spec fn at_att(
        self,
        copied: Set<Seq<char>>,
        nvars: i32,
        varid: i32,
        name: Seq<char>,
        out_varid: i32,
        natts: i32,
        attnum: int,
    ) -> (Set<Seq<char>>, DefineStep) {
        if attnum < natts {
            (
                copied,
                Step::More(
                    DefineState {
                        stage: DefineStage::NameAtt {
                            nvars,
                            varid,
                            name,
                            out_varid,
                            natts,
                            attnum: attnum as i32,
                        },
                        ..self
                    },
                ),
            )
        } else {
            (
                copied.insert(name),
                DefineState { pairs: self.pairs.push((varid, out_varid)), ..self }.at_var(
                    nvars,
                    varid + 1,
                ),
            )
        }
    }

    /// What becomes of a source variable that was read: it is skipped where a variable of its
    /// name was copied before, and otherwise defined in the output on the matching dimensions.
    pub open spec fn with_variable(
        self,
        copied: Set<Seq<char>>,
        nvars: i32,
        varid: i32,
        name: Seq<char>,
        xtype: i32,
        dimids: Seq<i32>,
        natts: i32,
    ) -> DefineStep {
        if copied.contains(name) {
            self.at_var(nvars, varid + 1)
        } else if !supported_type(xtype) {
            Step::Failed(unsupported_text(name, self.part, xtype))
        } else {
            match mapped_dims(self.dim_map, dimids, name) {
                Err(e) => Step::Failed(e),
                Ok(out_dimids) => Step::More(
                    DefineState {
                        stage: DefineStage::Define {
                            nvars,
                            varid,
                            name,
                            xtype,
                            dimids: out_dimids,
                            natts,
                        },
                        ..self
                    },
                ),
            }
        }
    }

    /// What the answer `r` leads to. `copied` are the names of the variables that the output
    /// has; the names that it has afterwards come first.
    pub open spec fn resume(self, copied: Set<Seq<char>>, r: Answer) -> (
        Set<Seq<char>>,
        DefineStep,
    ) {
        match self.stage {
            DefineStage::Count => match file_counts(r, self.part) {
                Err(e) => (copied, Step::Failed(e)),
                Ok((_, nvars, _, _)) => (copied, self.at_var(nvars, 0)),
            },
            DefineStage::Read { nvars, varid } => if !r.ok() {
                (
                    copied,
                    Step::Failed(
                        r.failure(
                            "Could not inspect variable "@ + decimal(varid as int) + " from "@
                                + self.part.spec_label(),
                        ),
                    ),
                )
            } else {
                match name_in(r.name) {
                    Err(e) => (copied, Step::Failed(e)),
                    Ok(name) => (
                        copied,
                        self.with_variable(copied, nvars, varid, name, r.xtype, r.dimids, r.natts),
                    ),
                }
            },
            DefineStage::Define { nvars, varid, name, xtype, dimids, natts } => if !r.ok() {
                (
                    copied,
                    Step::Failed(r.failure("Could not define output variable `"@ + name + "`"@)),
                )
            } else {
                self.at_att(copied, nvars, varid, name, r.id, natts, 0)
            },
            DefineStage::NameAtt { nvars, varid, name, out_varid, natts, attnum } =>
                match att_name(r, attnum) {
                Err(e) => (copied, Step::Failed(e)),
                Ok(att_name) => (
                    copied,
                    Step::More(
                        DefineState {
                            stage: DefineStage::CopyAtt {
                                nvars,
                                varid,
                                name,
                                out_varid,
                                natts,
                                attnum,
                                att_name,
                            },
                            ..self
                        },
                    ),
                ),
            },
            DefineStage::CopyAtt { nvars, varid, name, out_varid, natts, attnum, att_name } =>
                if !r.ok() {
                (
                    copied,
                    Step::Failed(
                        r.failure(
                            "Could not copy attribute `"@ + att_name + "` for variable `"@ + name
                                + "`"@,
                        ),
                    ),
                )
            } else {
                self.at_att(copied, nvars, varid, name, out_varid, natts, attnum + 1)
            },
        }
    }
}

/// The variable that is being copied.
struct Current {
    nvars: i32,
    varid: i32,
    name: String,
    natts: i32,
}

/// The call that is waited for, with what it needs.
enum Stage {
    Count,
    Read { nvars: i32, varid: i32 },
    Define { var: Current, xtype: i32, dimids: Vec<i32> },
    NameAtt { var: Current, out_varid: i32, attnum: i32 },
    CopyAtt { var: Current, out_varid: i32, attnum: i32, att_name: String },
}

impl Stage {
    spec fn model(self) -> DefineStage {
        match self {
            Stage::Count => DefineStage::Count,
            Stage::Read { nvars, varid } => DefineStage::Read { nvars, varid },
            Stage::Define { var, xtype, dimids } => DefineStage::Define {
                nvars: var.nvars,
                varid: var.varid,
                name: var.name@,
                xtype,
                dimids: dimids@,
                natts: var.natts,
            },
            Stage::NameAtt { var, out_varid, attnum } => DefineStage::NameAtt {
                nvars: var.nvars,
                varid: var.varid,
                name: var.name@,
                out_varid,
                natts: var.natts,
                attnum,
            },
            Stage::CopyAtt { var, out_varid, attnum, att_name } => DefineStage::CopyAtt {
                nvars: var.nvars,
                varid: var.varid,
                name: var.name@,
                out_varid,
                natts: var.natts,
                attnum,
                att_name: att_name@,
            },
        }
    }
}

/// The copying of the variable definitions of one part.
///
/// Variables have to be defined before their data can be written. For each source variable its
/// name, type, dimensions and attributes are copied; the data follows once the output has left
/// define mode.
pub struct DefineVariables {
    job: Job,
    stage: Stage,
}

/// What is copied where, and what has been.
struct Job {
    part: Part,
    src: i32,
    dst: i32,
    dim_map: Vec<i32>,
    pairs: Vec<(i32, i32)>,
}

impl Job {
    spec fn state(self, stage: DefineStage) -> DefineState {
        DefineState {
            part: self.part,
            src: self.src,
            dst: self.dst,
            dim_map: self.dim_map@,
            pairs: self.pairs@,
            stage,
        }
    }
}

impl View for DefineVariables {
    type V = DefineState;

    closed spec fn view(&self) -> DefineState {
        self.job.state(self.stage.model())
    }
}

/// The index that an ID is: a negative one wraps round to the top of the range.
fn index_of(id: i32) -> (i: usize)
    ensures
        i == as_index(id),
{
    if id < 0 {
        usize::MAX - (-(id + 1)) as usize
    } else {
        id as usize
    }
}

/// The output dimensions of the variable `name` on the source dimensions `dimids`.
fn map_dimensions(dim_map: &Vec<i32>, dimids: &Vec<i32>, name: &str) -> (r: Result<
    Vec<i32>,
    String,
>)
    ensures
        match r {
            Ok(out) => mapped_dims(dim_map@, dimids@, name@) == Ok::<Seq<i32>, Seq<char>>(out@),
            Err(e) => mapped_dims(dim_map@, dimids@, name@) == Err::<Seq<i32>, Seq<char>>(e@),
        },
{
    let mut out: Vec<i32> = Vec::new();
    let mut i: usize = 0;
    while i < dimids.len()
        invariant
            i <= dimids@.len(),
            out@.len() == i,
            forall|j: int|
                0 <= j < i ==> known_dim(dim_map@, #[trigger] dimids@[j]) && out@[j]
                    == dim_map@[dimids@[j] as int],
        decreases dimids@.len() - i,
    {
        let id: i32 = dimids[i];
        if id < 0 || id as usize >= dim_map.len() {
            proof {
                assert(first_unknown(dim_map@, dimids@, i as int));
                let k = choose|k: int| first_unknown(dim_map@, dimids@, k);
                assert(k == i) by {
                    assert(known_dim(dim_map@, dimids@[i as int]) || k <= i);
                    assert(!known_dim(dim_map@, dimids@[k]));
                }
            }
            return Err(
                join4(
                    "Variable `",
                    name,
                    "` references unknown dimension id ",
                    u64_text(index_of(id) as u64).as_str(),
                ),
            );
        }
        out.push(dim_map[id as usize]);
        i = i + 1;
    }
    assert(out@ =~= Seq::new(dimids@.len(), |j: int| dim_map@[dimids@[j] as int]));
    Ok(out)
}

impl Job {
    /// Goes on with the variable `varid`.
    fn at_var(self, nvars: i32, varid: i32) -> (s: Step<DefineVariables, Vec<(i32, i32)>, String>)
        requires
            0 <= varid,
        ensures
            s@ == self.state(DefineStage::Count).at_var(nvars, varid as int),
    {
        if varid < nvars {
            Step::More(DefineVariables { job: self, stage: Stage::Read { nvars, varid } })
        } else {
            Step::Done(self.pairs)
        }
    }

    /// Goes on with the attribute `attnum` of the variable `var`.
    fn at_att(self, copied: &mut StringHashSet, var: Current, out_varid: i32, attnum: i32) -> (s:
        Step<DefineVariables, Vec<(i32, i32)>, String>)
        requires
            0 <= var.varid < var.nvars,
            0 <= attnum,
            c_name(var.name@),
        ensures
            (final(copied)@, s@) == self.state(DefineStage::Count).at_att(
                old(copied)@,
                var.nvars,
                var.varid,
                var.name@,
                out_varid,
                var.natts,
                attnum as int,
            ),
    {
        if attnum < var.natts {
            Step::More(
                DefineVariables { job: self, stage: Stage::NameAtt { var, out_varid, attnum } },
            )
        } else {
            let mut pairs = self.pairs;
            pairs.push((var.varid, out_varid));
            copied.insert(var.name);
            Job { pairs, ..self }.at_var(var.nvars, var.varid + 1)
        }
    }

    /// Takes up the source variable that `reply` describes.
    fn with_variable(
        self,
        copied: &StringHashSet,
        nvars: i32,
        varid: i32,
        name: String,
        reply: Reply,
    ) -> (s: Step<DefineVariables, Vec<(i32, i32)>, String>)
        requires
            0 <= varid < nvars,
            c_name(name@),
        ensures
            s@ == self.state(DefineStage::Count).with_variable(
                copied@,
                nvars,
                varid,
                name@,
                reply.xtype,
                reply.dimids@,
                reply.natts,
            ),
    {
        if copied.contains(name.as_str()) {
            return self.at_var(nvars, varid + 1);
        }
        if !is_supported_atomic_type(reply.xtype) {
            return Step::Failed(
                join2(
                    join4("Variable `", name.as_str(), "` from ", self.part.label()).as_str(),
                    join3(
                        " uses unsupported type ",
                        i32_text(reply.xtype).as_str(),
                        ". This implementation supports primitive numeric/char and string NetCDF types only.",
                    ).as_str(),
                ),
            );
        }
        match map_dimensions(&self.dim_map, &reply.dimids, name.as_str()) {
            Err(e) => Step::Failed(e),
            Ok(dimids) => Step::More(
                DefineVariables {
                    job: self,
                    stage: Stage::Define {
                        var: Current { nvars, varid, name, natts: reply.natts },
                        xtype: reply.xtype,
                        dimids,
                    },
                },
            ),
        }
    }
}

impl DefineVariables {
    #[verifier::type_invariant]
    spec fn inv(self) -> bool {
        self@.wf()
    }

    /// Begins to copy the variables of `part` from the dataset `src` to the dataset `dst`.
    pub fn start(part: Part, src: i32, dst: i32, dim_map: Vec<i32>) -> (s: DefineVariables)
        ensures
            s@ == DefineState::start(part, src, dst, dim_map@),
    {
        DefineVariables {
            job: Job { part, src, dst, dim_map, pairs: Vec::new() },
            stage: Stage::Count,
        }
    }

    /// The part whose variables are copied.
    pub fn part(&self) -> (p: Part)
        ensures
            p == self@.part,
    {
        self.job.part
    }

    /// The call that is waited for.
    pub fn request(&self) -> (r: Request<'_>)
        ensures
            r@ == self@.request(),
            r@.c_names(),
    {
        proof {
            use_type_invariant(self);
        }
        match &self.stage {
            Stage::Count => Request::Inq { ncid: self.job.src },
            Stage::Read { nvars: _, varid } => Request::InqVar {
                ncid: self.job.src,
                varid: *varid,
            },
            Stage::Define { var, xtype, dimids } => Request::DefVar {
                ncid: self.job.dst,
                name: var.name.as_str(),
                xtype: *xtype,
                dimids: dimids.as_slice(),
            },
            Stage::NameAtt { var, out_varid: _, attnum } => Request::InqAttName {
                ncid: self.job.src,
                varid: var.varid,
                attnum: *attnum,
            },
            Stage::CopyAtt { var, out_varid, attnum: _, att_name } => Request::CopyAtt {
                src_ncid: self.job.src,
                src_varid: var.varid,
                name: att_name.as_str(),
                dst_ncid: self.job.dst,
                dst_varid: *out_varid,
            },
        }
    }

    /// Goes on from the reply to the call that was waited for. `copied` are the names of the
    /// variables that the output has.
    pub fn resume(self, copied: &mut StringHashSet, reply: Reply) -> (s: Step<
        DefineVariables,
        Vec<(i32, i32)>,
        String,
    >)
        ensures
            (final(copied)@, s@) == self@.resume(old(copied)@, reply@),
    {
        proof {
            use_type_invariant(&self);
            lemma_decoded_names_are_c_names(reply.name@);
        }
        let DefineVariables { job, stage } = self;
        match stage {
            Stage::Count => match inquire_file(&reply, job.part) {
                Err(e) => Step::Failed(e),
                Ok((_, nvars, _, _)) => job.at_var(nvars, 0),
            },
            Stage::Read { nvars, varid } => {
                let context = join4(
                    "Could not inspect variable ",
                    i32_text(varid).as_str(),
                    " from ",
                    job.part.label(),
                );
                match reply.check(context.as_str()) {
                    Err(e) => Step::Failed(e),
                    Ok(()) => match cstr_to_string(reply.name.as_slice()) {
                        Err(e) => Step::Failed(e),
                        Ok(name) => job.with_variable(copied, nvars, varid, name, reply),
                    },
                }
            },
            Stage::Define { var, xtype: _, dimids: _ } => {
                let context = join3("Could not define output variable `", var.name.as_str(), "`");
                match reply.check(context.as_str()) {
                    Err(e) => Step::Failed(e),
                    Ok(()) => job.at_att(copied, var, reply.id, 0),
                }
            },
            Stage::NameAtt { var, out_varid, attnum } => match get_att_name(&reply, attnum) {
                Err(e) => Step::Failed(e),
                Ok(att_name) => Step::More(
                    DefineVariables {
                        job,
                        stage: Stage::CopyAtt { var, out_varid, attnum, att_name },
                    },
                ),
            },
            Stage::CopyAtt { var, out_varid, attnum, att_name } => {
                let context = join2(
                    join4(
                        "Could not copy attribute `",
                        att_name.as_str(),
                        "` for variable `",
                        var.name.as_str(),
                    ).as_str(),
                    "`",
                );
                match reply.check(context.as_str()) {
                    Err(e) => Step::Failed(e),
                    Ok(()) => job.at_att(copied, var, out_varid, attnum + 1),
                }
            },
        }
    }
}

} // verus!
