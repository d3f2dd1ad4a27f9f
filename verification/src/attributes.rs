//! Copying the global attributes of one part into the output.

use vstd::hash_set::StringHashSet;
use vstd::prelude::*;
use crate::inquiry::{att_name, file_counts, get_att_name, inquire_file};
use crate::names::{c_name, lemma_decoded_names_are_c_names};
use crate::protocol::{Answer, Call, Part, Reply, Request, Step, NC_GLOBAL};
use crate::text::join4;

verus! {

/// Where the copying of global attributes stands: which call it waits for.
///
/// `attnum` is the source attribute in hand, one of `natts`.
#[verifier::ext_equal]
pub enum AttStage {
    Count,
    Name { natts: i32, attnum: i32 },
    Copy { natts: i32, attnum: i32, name: Seq<char> },
}

/// The model of [`CopyGlobalAttributes`].
#[verifier::ext_equal]
pub struct AttState {
    /// The part whose attributes are copied.
    pub part: Part,
    /// The dataset that they come from.
    pub src: i32,
    /// The dataset that they go to.
    pub dst: i32,
    pub stage: AttStage,
}

/// What a step of the copying comes to.
pub type AttStep = Step<AttState, (), Seq<char>>;

impl AttState {
    /// The state in which the copying begins.
    pub open spec fn start(part: Part, src: i32, dst: i32) -> AttState {
        AttState { part, src, dst, stage: AttStage::Count }
    }

    /// The attribute in hand exists, and its name can be a C string.
    pub open spec fn wf(self) -> bool {
        match self.stage {
            AttStage::Count => true,
            AttStage::Name { natts, attnum } => 0 <= attnum < natts,
            AttStage::Copy { natts, attnum, name } => 0 <= attnum < natts && c_name(name),
        }
    }

    /// The call that is waited for.
    pub open spec fn request(self) -> Call {
        match self.stage {
            AttStage::Count => Call::Inq { ncid: self.src },
            AttStage::Name { natts, attnum } => Call::InqAttName {
                ncid: self.src,
                varid: NC_GLOBAL,
                attnum,
            },
            AttStage::Copy { natts, attnum, name } => Call::CopyAtt {
                src_ncid: self.src,
                src_varid: NC_GLOBAL,
                name,
                dst_ncid: self.dst,
                dst_varid: NC_GLOBAL,
            },
        }
    }

    /// Going on with the attribute `attnum`, or done where there is none left.
    pub open spec fn at_att(self, natts: i32, attnum: int) -> AttStep {
        if attnum < natts {
            Step::More(
                AttState { stage: AttStage::Name { natts, attnum: attnum as i32 }, ..self },
            )
        } else {
            Step::Done(())
        }
    }

    /// What the answer `r` leads to. `copied` are the names of the global attributes that the
    /// output has; the names that it has afterwards come first. An attribute whose name is among
    /// them is skipped.
    pub open spec fn resume(self, copied: Set<Seq<char>>, r: Answer) -> (Set<Seq<char>>, AttStep) {
        match self.stage {
            AttStage::Count => match file_counts(r, self.part) {
                Err(e) => (copied, Step::Failed(e)),
                Ok((_, _, natts, _)) => (copied, self.at_att(natts, 0)),
            },
            AttStage::Name { natts, attnum } => match att_name(r, attnum) {
                Err(e) => (copied, Step::Failed(e)),
                Ok(name) => if copied.contains(name) {
                    (copied, self.at_att(natts, attnum + 1))
                } else {
                    (
                        copied,
                        Step::More(
                            AttState { stage: AttStage::Copy { natts, attnum, name }, ..self },
                        ),
                    )
                },
            },
            AttStage::Copy { natts, attnum, name } => if !r.ok() {
                (
                    copied,
                    Step::Failed(
                        r.failure(
                            "Could not copy global attribute `"@ + name + "` from "@
                                + self.part.spec_label(),
                        ),
                    ),
                )
            } else {
                (copied.insert(name), self.at_att(natts, attnum + 1))
            },
        }
    }
}

/// The call that is waited for, with what it needs.
enum Stage {
    Count,
    Name { natts: i32, attnum: i32 },
    Copy { natts: i32, attnum: i32, name: String },
}

impl Stage {
    spec fn model(self) -> AttStage {
        match self {
            Stage::Count => AttStage::Count,
            Stage::Name { natts, attnum } => AttStage::Name { natts, attnum },
            Stage::Copy { natts, attnum, name } => AttStage::Copy { natts, attnum, name: name@ },
        }
    }
}

/// What is copied where.
struct Job {
    part: Part,
    src: i32,
    dst: i32,
}

impl Job {
    spec fn state(self, stage: AttStage) -> AttState {
        AttState { part: self.part, src: self.src, dst: self.dst, stage }
    }
}

/// The copying of the global attributes of one part.
///
/// Of attributes with the same name the first that is copied is kept.
pub struct CopyGlobalAttributes {
    job: Job,
    stage: Stage,
}

impl View for CopyGlobalAttributes {
    type V = AttState;

    closed spec fn view(&self) -> AttState {
        self.job.state(self.stage.model())
    }
}

impl Job {
    /// Goes on with the attribute `attnum`.
    fn at_att(self, natts: i32, attnum: i32) -> (s: Step<CopyGlobalAttributes, (), String>)
        requires
            0 <= attnum,
        ensures
            s@ == self.state(AttStage::Count).at_att(natts, attnum as int),
    {
        if attnum < natts {
            Step::More(CopyGlobalAttributes { job: self, stage: Stage::Name { natts, attnum } })
        } else {
            Step::Done(())
        }
    }
}

impl CopyGlobalAttributes {
    #[verifier::type_invariant]
    spec fn inv(self) -> bool {
        self@.wf()
    }

    /// Begins to copy the global attributes of `part` from the dataset `src` to the dataset
    /// `dst`.
    pub fn start(part: Part, src: i32, dst: i32) -> (s: CopyGlobalAttributes)
        ensures
            s@ == AttState::start(part, src, dst),
    {
        CopyGlobalAttributes { job: Job { part, src, dst }, stage: Stage::Count }
    }

    /// The part whose attributes are copied.
    pub fn part(&self) -> (p: Part)
        ensures
            p == self@.part,
    {
        self.job.part
    }

    /// The call that is waited for.
    pub fn request(&self) -> (r: Request<'_>)
        ensures
            r@ == self@.request(),
            r@.c_names(),
    {
        proof {
            use_type_invariant(self);
        }
        match &self.stage {
            Stage::Count => Request::Inq { ncid: self.job.src },
            Stage::Name { natts: _, attnum } => Request::InqAttName {
                ncid: self.job.src,
                varid: NC_GLOBAL,
                attnum: *attnum,
            },
            Stage::Copy { natts: _, attnum: _, name } => Request::CopyAtt {
                src_ncid: self.job.src,
                src_varid: NC_GLOBAL,
                name: name.as_str(),
                dst_ncid: self.job.dst,
                dst_varid: NC_GLOBAL,
            },
        }
    }

    /// Goes on from the reply to the call that was waited for. `copied` are the names of the
    /// global attributes that the output has.
    pub fn resume(self, copied: &mut StringHashSet, reply: Reply) -> (s: Step<
        CopyGlobalAttributes,
        (),
        String,
    >)
        ensures
            (final(copied)@, s@) == self@.resume(old(copied)@, reply@),
    {
        proof {
            use_type_invariant(&self);
            lemma_decoded_names_are_c_names(reply.name@);
        }
        let CopyGlobalAttributes { job, stage } = self;
        match stage {
            Stage::Count => match inquire_file(&reply, job.part) {
                Err(e) => Step::Failed(e),
                Ok((_, _, natts, _)) => job.at_att(natts, 0),
            },
            Stage::Name { natts, attnum } => match get_att_name(&reply, attnum) {
                Err(e) => Step::Failed(e),
                Ok(name) => if copied.contains(name.as_str()) {
                    job.at_att(natts, attnum + 1)
                } else {
                    Step::More(
                        CopyGlobalAttributes { job, stage: Stage::Copy { natts, attnum, name } },
                    )
                },
            },
            Stage::Copy { natts, attnum, name } => {
                let context = join4(
                    "Could not copy global attribute `",
                    name.as_str(),
                    "` from ",
                    job.part.label(),
                );
                match reply.check(context.as_str()) {
                    Err(e) => Step::Failed(e),
                    Ok(()) => {
                        copied.insert(name);
                        job.at_att(natts, attnum + 1)
                    },
                }
            },
        }
    }
}

} // verus!
