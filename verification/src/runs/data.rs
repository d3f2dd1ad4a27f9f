//! The copying of values.

use vstd::prelude::*;
use vstd::utf8::*;
use crate::data::{too_large_text, DataStage, DataState, DataStep};
use crate::merge::{MergeModel, MergeState};
use crate::model::{Dataset, Var};
use crate::netcdf::{
    lemma_reaches_end, lemma_reaches_self, lemma_reaches_step, lemma_reaches_trans, Config, World,
};
use crate::protocol::{Part, NC_STRING};
use crate::runs::{good_name, lemma_name_round_trip};
use crate::runs::vars::shell;

verus! {

/// The variables `out`, of which only the first `n` have their values.
pub open spec fn filled(out: Seq<Var>, n: int) -> Seq<Var> {
    Seq::new(
        out.len(),
        |k: int| if k < n {
            out[k]
        } else {
            shell(out[k])
        },
    )
}

/// Going on after a step of the copying of values from `part`.
pub open spec fn after_data(s: MergeState, part: Part, step: DataStep) -> MergeModel {
    match part {
        Part::A => s.after_data_a(step),
        Part::B => s.after_data_b(step),
    }
}

/// What is copied where.
pub struct DataJob {
    pub part: Part,
    pub src: i32,
    pub dst: i32,
    /// The source and the output ID of each variable to copy.
    pub pairs: Seq<(i32, i32)>,
    /// The source dataset.
    pub from: Dataset,
    /// The variables that the output has in the end.
    pub out: Seq<Var>,
    /// The first of them that is copied.
    pub offset: int,
}

impl DataJob {
    /// The state of the copying at the variable with the position `j`.
    pub open spec fn state(self, j: int) -> DataState {
        DataState {
            part: self.part,
            src: self.src,
            dst: self.dst,
            pairs: self.pairs,
            at: j,
            stage: DataStage::Inspect,
        }
    }

    /// The source variable with the position `j` among those to copy.
    pub open spec fn var(self, j: int) -> Var {
        self.from.vars[self.pairs[j].0 as int]
    }

    /// NetCDF-C after the values of the first `j` variables are copied.
    pub open spec fn world(self, w: World, j: int) -> World {
        w.put(
            self.dst,
            Dataset { vars: filled(self.out, self.offset + j), ..w.open[self.dst] },
        )
    }

    /// The copying after the first `j` variables. `s` and `w` say how everything else stands.
    pub open spec fn at(self, s: MergeState, w: World, j: int) -> Config {
        Config {
            merge: after_data(s, self.part, self.state(0).at_pair(j)),
            world: self.world(w, j),
        }
    }

    /// The copying after the first `j` variables and the first `k` dimensions of the next.
    pub open spec fn at_dim(self, s: MergeState, w: World, j: int, k: int) -> Config {
        let v = self.var(j);
        Config {
            merge: after_data(
                s,
                self.part,
                self.state(j).at_dim(
                    decode_utf8(v.name),
                    v.xtype,
                    (w.type_size)(v.xtype),
                    Seq::new(v.dims.len(), |i: int| v.dims[i] as i32),
                    k,
                    self.from.count(v, k) as usize,
                ),
            ),
            world: self.world(w, j),
        }
    }

    /// Whether the copying can be done.
    pub open spec fn ready(self, w: World) -> bool {
        &&& w.open.contains_key(self.src)
        &&& w.open.contains_key(self.dst)
        &&& self.src != self.dst
        &&& w.open[self.src] == self.from
        &&& w.defining is None
        &&& w.strings.len() == 0
        &&& self.from.vars.len() <= i32::MAX
        &&& self.from.dims.len() <= i32::MAX
        &&& self.out.len() <= i32::MAX
        &&& 0 <= self.offset
        &&& forall|j: int|
            #![trigger self.pairs[j]]
            0 <= j < self.pairs.len() ==> {
                &&& 0 <= self.pairs[j].0 < self.from.vars.len()
                &&& self.pairs[j].1 == self.offset + j
                &&& self.offset + j < self.out.len()
                &&& self.out[self.offset + j].values == self.var(j).values
                &&& good_name(self.var(j).name)
                &&& self.from.holds(self.var(j), w.type_size)
            }
    }

    /// The variable with the position `j` is inspected.
    proof fn lemma_inspect(self, s: MergeState, w: World, j: int)
        requires
            self.ready(w),
            0 <= j < self.pairs.len(),
        ensures
            self.at(s, w, j).reaches(self.at_dim(s, w, j, 0)),
    {
        let c = self.at(s, w, j);
        let goal = self.at_dim(s, w, j, 0);
        let v = self.var(j);
        assert(0 <= self.pairs[j].0 < self.from.vars.len());
        lemma_name_round_trip(v.name);
        let d = c.step();
        assert(d.world =~= c.world);
        assert(self.from.count(v, 0) == 1);
        assert(d.step() =~= goal);
        lemma_reaches_self(goal);
        lemma_reaches_step(d, goal);
        lemma_reaches_step(c, goal);
    }

    /// One dimension is multiplied.
    proof fn lemma_dim(self, s: MergeState, w: World, j: int, k: int)
        requires
            self.ready(w),
            0 <= j < self.pairs.len(),
            0 <= k < self.var(j).dims.len(),
            self.from.count(self.var(j), k) <= usize::MAX,
            self.from.count(self.var(j), k + 1) <= usize::MAX,
        ensures
            self.at_dim(s, w, j, k).reaches(self.at_dim(s, w, j, k + 1)),
    {
        let c = self.at_dim(s, w, j, k);
        let goal = self.at_dim(s, w, j, k + 1);
        let v = self.var(j);
        assert(0 <= self.pairs[j].0 < self.from.vars.len());
        assert(0 <= v.dims[k] < self.from.dims.len());
        assert(self.from.count(v, k + 1) == self.from.count(v, k)
            * self.from.dims[v.dims[k]].len as nat);
        assert(c.step() =~= goal);
        lemma_reaches_self(goal);
        lemma_reaches_step(c, goal);
    }

    /// The first `k` dimensions are multiplied.
    proof fn lemma_dims(self, s: MergeState, w: World, j: int, k: int)
        requires
            self.ready(w),
            0 <= j < self.pairs.len(),
            0 <= k <= self.var(j).dims.len(),
            forall|n: int|
                0 <= n <= k ==> #[trigger] self.from.count(self.var(j), n) <= usize::MAX,
        ensures
            self.at_dim(s, w, j, 0).reaches(self.at_dim(s, w, j, k)),
        decreases k,
    {
        if k == 0 {
            lemma_reaches_self(self.at_dim(s, w, j, 0));
        } else {
            self.lemma_dims(s, w, j, k - 1);
            assert(self.from.count(self.var(j), k - 1) <= usize::MAX);
            assert(self.from.count(self.var(j), k) <= usize::MAX);
            self.lemma_dim(s, w, j, k - 1);
            lemma_reaches_trans(
                self.at_dim(s, w, j, 0),
                self.at_dim(s, w, j, k - 1),
                self.at_dim(s, w, j, k),
            );
        }
    }

    /// The values of a variable are copied.
    proof fn lemma_values(self, s: MergeState, w: World, j: int)
        requires
            self.ready(w),
            0 <= j < self.pairs.len(),
            self.from.countable(self.var(j), w.type_size),
        ensures
            self.at_dim(s, w, j, self.var(j).dims.len() as int).reaches(self.at(s, w, j + 1)),
    {
        let v = self.var(j);
        let c = self.at_dim(s, w, j, v.dims.len() as int);
        let goal = self.at(s, w, j + 1);
        let y = self.offset + j;
        assert(self.pairs[j].1 == y);
        assert(self.from.holds(v, w.type_size));
        assert(self.from.count(v, v.dims.len() as int) <= usize::MAX);
        assert(filled(self.out, y + 1) =~= filled(self.out, y).update(y, self.out[y]));
        let d = c.step();
        let e = d.step();
        if v.xtype == NC_STRING {
            assert(d.world.open =~= c.world.open);
            assert(e.world.open[self.dst].vars =~= filled(self.out, y + 1));
            assert(e.step().world.strings =~= w.strings);
            assert(e.step().world.open =~= goal.world.open);
            assert(e.step() =~= goal);
            lemma_reaches_self(goal);
            lemma_reaches_step(e, goal);
            lemma_reaches_step(d, goal);
            lemma_reaches_step(c, goal);
        } else {
            assert(d.world =~= c.world);
            assert(e.world.open[self.dst].vars =~= filled(self.out, y + 1));
            assert(e.world.open =~= goal.world.open);
            assert(e =~= goal);
            lemma_reaches_self(goal);
            lemma_reaches_step(d, goal);
            lemma_reaches_step(c, goal);
        }
    }

    /// The values of the first `n` variables are copied.
    pub proof fn lemma_run(self, s: MergeState, w: World, n: int)
        requires
            self.ready(w),
            0 <= n <= self.pairs.len(),
            forall|j: int|
                #![trigger self.pairs[j]]
                0 <= j < n ==> self.from.countable(self.var(j), w.type_size),
        ensures
            self.at(s, w, 0).reaches(self.at(s, w, n)),
        decreases n,
    {
        if n == 0 {
            lemma_reaches_self(self.at(s, w, 0));
        } else {
            let j = n - 1;
            let dims = self.var(j).dims.len() as int;
            self.lemma_run(s, w, j);
            assert(self.pairs[j].1 == self.offset + j);
            self.lemma_inspect(s, w, j);
            self.lemma_dims(s, w, j, dims);
            self.lemma_values(s, w, j);
            lemma_reaches_trans(
                self.at(s, w, 0),
                self.at(s, w, j),
                self.at_dim(s, w, j, 0),
            );
            lemma_reaches_trans(
                self.at(s, w, 0),
                self.at_dim(s, w, j, 0),
                self.at_dim(s, w, j, dims),
            );
            lemma_reaches_trans(
                self.at(s, w, 0),
                self.at_dim(s, w, j, dims),
                self.at(s, w, n),
            );
        }
    }

    /// A variable whose values cannot be counted ends the merge.
    pub proof fn lemma_too_large(self, s: MergeState, w: World, j: int)
        requires
            self.ready(w),
            0 <= j < self.pairs.len(),
            !self.from.countable(self.var(j), w.type_size),
        ensures
            self.at(s, w, j).ends_with(Err(too_large_text(decode_utf8(self.var(j).name)))),
    {
        let v = self.var(j);
        let dims = v.dims.len() as int;
        let e = Err(too_large_text(decode_utf8(v.name)));
        let c = self.at(s, w, j);
        assert(0 <= self.pairs[j].0 < self.from.vars.len());
        self.lemma_inspect(s, w, j);
        let k = self.lemma_countable_dims(j, dims);
        self.lemma_dims(s, w, j, k);
        let d = self.at_dim(s, w, j, k);
        lemma_reaches_trans(c, self.at_dim(s, w, j, 0), d);
        if k < dims {
            assert(0 <= v.dims[k] < self.from.dims.len());
            assert(self.from.count(v, k + 1) == self.from.count(v, k)
                * self.from.dims[v.dims[k]].len as nat);
            assert(d.step().merge == MergeModel::Finished(e));
            lemma_reaches_self(d.step());
            lemma_reaches_step(d, d.step());
            lemma_reaches_trans(c, d, d.step());
            lemma_reaches_end(c, d.step(), e);
        } else {
            assert(d.merge == MergeModel::Finished(e));
            lemma_reaches_end(c, d, e);
        }
    }

    /// How many of the first `n` dimensions of a variable can be multiplied before the product
    /// is too large.
    proof fn lemma_countable_dims(self, j: int, n: int) -> (k: int)
        requires
            0 <= n,
        ensures
            0 <= k <= n,
            forall|i: int|
                0 <= i <= k ==> #[trigger] self.from.count(self.var(j), i) <= usize::MAX,
            k < n ==> self.from.count(self.var(j), k + 1) > usize::MAX,
        decreases n,
    {
        if n == 0 {
            assert(self.from.count(self.var(j), 0) == 1);
            0
        } else {
            let k = self.lemma_countable_dims(j, n - 1);
            if k == n - 1 && self.from.count(self.var(j), n) <= usize::MAX {
                n
            } else {
                k
            }
        }
    }
}

} // verus!
