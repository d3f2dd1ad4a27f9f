//! A model of NetCDF-C, as far as a merge uses it, and of a merge that runs against it.

use vstd::prelude::*;
use vstd::utf8::*;
use crate::merge::{MergeModel, MergeState};
use crate::model::{names, Att, Dataset, Dim, Values, Var};
use crate::protocol::{Answer, Call, NC_GLOBAL, NC_NOERR};

verus! {

/// The state of NetCDF-C.
#[verifier::ext_equal]
pub struct World {
    /// The dataset that is in a file with the given bytes.
    pub files: spec_fn(Seq<u8>) -> Dataset,
    /// The bytes of the file that a dataset is written as.
    pub image: spec_fn(Dataset) -> Seq<u8>,
    /// The size of the elements of each type.
    pub type_size: spec_fn(i32) -> usize,
    /// The open datasets, by their IDs.
    pub open: Map<i32, Dataset>,
    /// How many datasets were opened before.
    pub next: int,
    /// The ID that the dataset gets that is opened after so many.
    pub ids: spec_fn(int) -> i32,
    /// What the answer of a call holds besides what the call gives: the output parameters of other
    /// calls, the rest of a name buffer, the status and the message of a refusal.
    pub noise: spec_fn(Call) -> Answer,
    /// The dataset that is in define mode.
    pub defining: Option<i32>,
    /// The strings that were read last and not freed.
    pub strings: Seq<Seq<u8>>,
}

/// The answer of a call that succeeded, where `noise` is what the answer holds besides.
pub open spec fn done(noise: Answer) -> Answer {
    Answer { status: NC_NOERR, ..noise }
}

/// The answer of a call that gave the ID `id`.
pub open spec fn gave(id: i32, noise: Answer) -> Answer {
    Answer { id, ..done(noise) }
}

/// The buffer that a call wrote `name` to as a C string.
pub open spec fn name_buffer(name: Seq<u8>, noise: Answer) -> Seq<u8> {
    name.push(0u8) + noise.name
}

/// The answer of a call that was refused.
pub open spec fn refused(noise: Answer) -> Answer {
    let status = if noise.status == NC_NOERR {
        (NC_NOERR - 1) as i32
    } else {
        noise.status
    };
    Answer { status, ..noise }
}

/// The attributes of the variable `varid` of `d`, or the global ones for `NC_GLOBAL`.
pub open spec fn atts_of(d: Dataset, varid: i32) -> Seq<Att> {
    if varid == NC_GLOBAL {
        d.atts
    } else {
        d.vars[varid as int].atts
    }
}

/// `d` with `atts` as the attributes of the variable `varid`, or as the global ones.
pub open spec fn with_atts(d: Dataset, varid: i32, atts: Seq<Att>) -> Dataset {
    if varid == NC_GLOBAL {
        Dataset { atts, ..d }
    } else {
        Dataset {
            vars: d.vars.update(varid as int, Var { atts, ..d.vars[varid as int] }),
            ..d
        }
    }
}

/// Whether `varid` is a variable of `d`, or `NC_GLOBAL`.
pub open spec fn has_atts(d: Dataset, varid: i32) -> bool {
    varid == NC_GLOBAL || 0 <= varid < d.vars.len()
}

/// The position among `atts` of the attribute called `name`.
pub open spec fn att_at(atts: Seq<Att>, name: Seq<u8>) -> int {
    choose|k: int| 0 <= k < atts.len() && #[trigger] atts[k].name == name
}

/// `d` with `values` as those of its variable `varid`.
pub open spec fn with_values(d: Dataset, varid: i32, values: Values) -> Dataset {
    Dataset { vars: d.vars.update(varid as int, Var { values, ..d.vars[varid as int] }), ..d }
}

impl World {
    /// The dataset `ncid` is replaced by `d`.
    pub open spec fn put(self, ncid: i32, d: Dataset) -> World {
        World { open: self.open.insert(ncid, d), ..self }
    }

    /// The dataset `d` is opened under the next ID.
    pub open spec fn opened(self, d: Dataset) -> World {
        World { next: self.next + 1, ..self.put((self.ids)(self.next), d) }
    }

    /// What a call does, and its answer.
    pub open spec fn answer(self, call: Call) -> (World, Answer) {
        let noise = (self.noise)(call);
        match call {
            Call::Lock => (self, done(noise)),
            Call::OpenMem { path, mode, memory } => (
                self.opened((self.files)(memory)),
                gave((self.ids)(self.next), noise),
            ),
            Call::CreateMem { path, mode, initial_size } => (
                World { defining: Some((self.ids)(self.next)), ..self.opened(Dataset::empty()) },
                gave((self.ids)(self.next), noise),
            ),
            Call::Inq { ncid } => {
                let d = self.open[ncid];
                if self.open.contains_key(ncid) {
                    (
                        self,
                        Answer {
                            ndims: d.dims.len() as i32,
                            nvars: d.vars.len() as i32,
                            natts: d.atts.len() as i32,
                            ..done(noise)
                        },
                    )
                } else {
                    (self, refused(noise))
                }
            },
            Call::InqDim { ncid, dimid } => {
                let d = self.open[ncid];
                if self.open.contains_key(ncid) && 0 <= dimid < d.dims.len() {
                    (
                        self,
                        Answer {
                            name: name_buffer(d.dims[dimid as int].name, noise),
                            len: d.dims[dimid as int].len,
                            ..done(noise)
                        },
                    )
                } else {
                    (self, refused(noise))
                }
            },
            Call::DefDim { ncid, name, len } => {
                let d = self.open[ncid];
                let dim = Dim { name: encode_utf8(name), len };
                if self.open.contains_key(ncid) && self.defining == Some(ncid) && !names(
                    d.dims,
                ).contains(dim.name) {
                    (
                        self.put(ncid, Dataset { dims: d.dims.push(dim), ..d }),
                        gave(d.dims.len() as i32, noise),
                    )
                } else {
                    (self, refused(noise))
                }
            },
            Call::InqAttName { ncid, varid, attnum } => {
                let d = self.open[ncid];
                if self.open.contains_key(ncid) && has_atts(d, varid) && 0 <= attnum < atts_of(
                    d,
                    varid,
                ).len() {
                    (
                        self,
                        Answer {
                            name: name_buffer(atts_of(d, varid)[attnum as int].name, noise),
                            ..done(noise)
                        },
                    )
                } else {
                    (self, refused(noise))
                }
            },
            Call::CopyAtt { src_ncid, src_varid, name, dst_ncid, dst_varid } => {
                let s = self.open[src_ncid];
                let d = self.open[dst_ncid];
                let from = atts_of(s, src_varid);
                let to = atts_of(d, dst_varid);
                let key = encode_utf8(name);
                if self.open.contains_key(src_ncid) && self.open.contains_key(dst_ncid)
                    && self.defining == Some(dst_ncid) && has_atts(s, src_varid) && has_atts(
                    d,
                    dst_varid,
                ) && names(from).contains(key) && !names(to).contains(key) {
                    (
                        self.put(
                            dst_ncid,
                            with_atts(d, dst_varid, to.push(from[att_at(from, key)])),
                        ),
                        done(noise),
                    )
                } else {
                    (self, refused(noise))
                }
            },
            Call::InqVar { ncid, varid } => {
                let d = self.open[ncid];
                let v = d.vars[varid as int];
                if self.open.contains_key(ncid) && 0 <= varid < d.vars.len() {
                    (
                        self,
                        Answer {
                            name: name_buffer(v.name, noise),
                            xtype: v.xtype,
                            dimids: Seq::new(v.dims.len(), |i: int| v.dims[i] as i32),
                            natts: v.atts.len() as i32,
                            ..done(noise)
                        },
                    )
                } else {
                    (self, refused(noise))
                }
            },
            Call::DefVar { ncid, name, xtype, dimids } => {
                let d = self.open[ncid];
                let v = Var {
                    name: encode_utf8(name),
                    xtype,
                    dims: Seq::new(dimids.len(), |i: int| dimids[i] as int),
                    atts: Seq::empty(),
                    values: Values::Unset,
                };
                if self.open.contains_key(ncid) && self.defining == Some(ncid) && !names(
                    d.vars,
                ).contains(v.name) && forall|i: int|
                    0 <= i < dimids.len() ==> 0 <= #[trigger] dimids[i] < d.dims.len() {
                    (
                        self.put(ncid, Dataset { vars: d.vars.push(v), ..d }),
                        gave(d.vars.len() as i32, noise),
                    )
                } else {
                    (self, refused(noise))
                }
            },
            Call::EndDef { ncid } => if self.defining == Some(ncid) {
                (World { defining: None, ..self }, done(noise))
            } else {
                (self, refused(noise))
            },
            Call::InqType { ncid, xtype } => (
                self,
                Answer { len: (self.type_size)(xtype), ..done(noise) },
            ),
            Call::InqDimLen { ncid, dimid } => {
                let d = self.open[ncid];
                if self.open.contains_key(ncid) && 0 <= dimid < d.dims.len() {
                    (self, Answer { len: d.dims[dimid as int].len, ..done(noise) })
                } else {
                    (self, refused(noise))
                }
            },
            Call::GetVarString { ncid, varid, count } => {
                let d = self.open[ncid];
                if self.open.contains_key(ncid) && 0 <= varid < d.vars.len() && (
                d.vars[varid as int].values matches Values::Strings(s) && s.len() == count) {
                    (
                        World { strings: d.vars[varid as int].values->Strings_0, ..self },
                        done(noise),
                    )
                } else {
                    (self, refused(noise))
                }
            },
            Call::PutVarString { ncid, varid } => {
                let d = self.open[ncid];
                if self.open.contains_key(ncid) && self.defining != Some(ncid) && 0 <= varid
                    < d.vars.len() {
                    (
                        self.put(ncid, with_values(d, varid, Values::Strings(self.strings))),
                        done(noise),
                    )
                } else {
                    (self, refused(noise))
                }
            },
            Call::FreeString { count } => if self.strings.len() == count {
                (World { strings: Seq::empty(), ..self }, done(noise))
            } else {
                (self, refused(noise))
            },
            Call::GetVar { ncid, varid, size } => {
                let d = self.open[ncid];
                if self.open.contains_key(ncid) && 0 <= varid < d.vars.len() && (
                d.vars[varid as int].values matches Values::Bytes(b) && b.len() == size) {
                    (self, Answer { data: d.vars[varid as int].values->Bytes_0, ..done(noise) })
                } else {
                    (self, refused(noise))
                }
            },
            Call::PutVar { ncid, varid, data } => {
                let d = self.open[ncid];
                if self.open.contains_key(ncid) && self.defining != Some(ncid) && 0 <= varid
                    < d.vars.len() {
                    (self.put(ncid, with_values(d, varid, Values::Bytes(data))), done(noise))
                } else {
                    (self, refused(noise))
                }
            },
            Call::Close { ncid } => if self.open.contains_key(ncid) {
                (World { open: self.open.remove(ncid), ..self }, done(noise))
            } else {
                (self, refused(noise))
            },
            Call::CloseMemio { ncid } => if self.open.contains_key(ncid) {
                (
                    World { open: self.open.remove(ncid), ..self },
                    Answer { data: (self.image)(self.open[ncid]), ..done(noise) },
                )
            } else {
                (self, refused(noise))
            },
        }
    }
}

/// A merge together with the NetCDF-C that answers its calls.
#[verifier::ext_equal]
pub struct Config {
    pub merge: MergeModel,
    pub world: World,
}

/// The merge that stands at `m`, with NetCDF-C in the state `world`.
pub open spec fn running(m: MergeState, world: World) -> Config {
    Config { merge: MergeModel::Running(m), world }
}

impl Config {
    /// What one call leads to.
    pub open spec fn step(self) -> Config {
        match self.merge {
            MergeModel::Finished(_) => self,
            MergeModel::Running(m) => {
                let (world, r) = self.world.answer(m.request());
                Config { merge: m.resume(r), world }
            },
        }
    }

    /// What `n` calls lead to.
    pub open spec fn run(self, n: nat) -> Config
        decreases n,
    {
        if n == 0 {
            self
        } else {
            self.step().run((n - 1) as nat)
        }
    }

    /// Whether some number of calls leads to `other`.
    pub open spec fn reaches(self, other: Config) -> bool {
        exists|n: nat| #[trigger] self.run(n) == other
    }

    /// Whether some number of calls leads to the end of the merge with the outcome `result`, and
    /// leaves NetCDF-C in the state `world`.
    pub open spec fn ends_in(self, result: Result<Seq<u8>, Seq<char>>, world: World) -> bool {
        self.reaches(Config { merge: MergeModel::Finished(result), world })
    }

    /// Whether some number of calls leads to the end of the merge with the outcome `result`.
    pub open spec fn ends_with(self, result: Result<Seq<u8>, Seq<char>>) -> bool {
        exists|n: nat| (#[trigger] self.run(n)).merge == MergeModel::Finished(result)
    }
}

/// Every configuration reaches itself.
pub proof fn lemma_reaches_self(c: Config)
    ensures
        c.reaches(c),
{
    assert(c.run(0) == c);
}

/// What the next configuration reaches is reached.
pub proof fn lemma_reaches_step(c: Config, d: Config)
    requires
        c.step().reaches(d),
    ensures
        c.reaches(d),
{
    let n = choose|n: nat| #[trigger] c.step().run(n) == d;
    assert(c.run(n + 1) == d);
}

/// Runs can be put one after the other.
pub proof fn lemma_run_add(c: Config, m: nat, n: nat)
    ensures
        c.run(m + n) == c.run(m).run(n),
    decreases m,
{
    if m > 0 {
        lemma_run_add(c.step(), (m - 1) as nat, n);
    }
}

/// What is reached from a configuration that is reached is reached.
pub proof fn lemma_reaches_trans(c: Config, d: Config, e: Config)
    requires
        c.reaches(d),
        d.reaches(e),
    ensures
        c.reaches(e),
{
    let m = choose|m: nat| #[trigger] c.run(m) == d;
    let n = choose|n: nat| #[trigger] d.run(n) == e;
    lemma_run_add(c, m, n);
    assert(c.run(m + n) == e);
}

/// A merge whose end is reached ends so.
pub proof fn lemma_reaches_end(c: Config, d: Config, result: Result<Seq<u8>, Seq<char>>)
    requires
        c.reaches(d),
        d.merge == MergeModel::Finished(result),
    ensures
        c.ends_with(result),
{
    let n = choose|n: nat| #[trigger] c.run(n) == d;
    assert(c.run(n).merge == MergeModel::Finished(result));
}

/// A merge ends as what it reaches ends.
pub proof fn lemma_reaches_ends(c: Config, d: Config, result: Result<Seq<u8>, Seq<char>>)
    requires
        c.reaches(d),
        d.ends_with(result),
    ensures
        c.ends_with(result),
{
    let n = choose|n: nat| (#[trigger] d.run(n)).merge == MergeModel::Finished(result);
    assert(d.reaches(d.run(n)));
    lemma_reaches_trans(c, d, d.run(n));
    lemma_reaches_end(c, d.run(n), result);
}

/// A merge that has ended stays as it is.
pub proof fn lemma_ended(c: Config, n: nat)
    requires
        c.merge is Finished,
    ensures
        c.run(n) == c,
    decreases n,
{
    if n > 0 {
        lemma_ended(c.step(), (n - 1) as nat);
    }
}

} // verus!
