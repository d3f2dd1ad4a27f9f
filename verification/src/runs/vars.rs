//! The copying of variable definitions.

use vstd::prelude::*;
use vstd::utf8::*;
use crate::merge::{MergeStage, MergeState};
use crate::model::{
    all_moved, dim_at, first_wins, fresh, lemma_first_wins_named, lemma_fresh_prefix,
    lemma_fresh_step, lemma_nothing_fresh, lemma_seen, moved, names, well_named, Dataset, Dim,
    Named, Values, Var,
};
use crate::netcdf::{
    lemma_reaches_end, lemma_reaches_self, lemma_reaches_step, lemma_reaches_trans, running,
    Config, World,
};
use crate::protocol::{supported_type, Part};
use crate::runs::{
    good_name, lemma_att_at, lemma_name_round_trip, lemma_name_texts, lemma_name_texts_push,
    name_texts,
};
use crate::variables::{known_dim, mapped_dims, unsupported_text, DefineStage, DefineState};

verus! {

/// The definition of `v`, without its values.
pub open spec fn shell(v: Var) -> Var {
    Var { values: Values::Unset, ..v }
}

/// The definitions of `vs`.
pub open spec fn shells(vs: Seq<Var>) -> Seq<Var> {
    Seq::new(vs.len(), |i: int| shell(vs[i]))
}

/// The variables that the output has in the end: `kept`, and the fresh ones of `vs`, which come
/// from a dataset with the dimensions `from` to one with the dimensions `to`.
pub open spec fn vars_out(kept: Seq<Var>, vs: Seq<Var>, from: Seq<Dim>, to: Seq<Dim>) -> Seq<Var> {
    kept + all_moved(fresh(kept, vs), from, to)
}

/// The IDs of the fresh ones among the first `i` of `vs`: that in the source, and that in the
/// output after all of `kept`.
pub open spec fn pairs_of(kept: Seq<Var>, vs: Seq<Var>, i: int) -> Seq<(i32, i32)>
    decreases i,
{
    if i <= 0 {
        Seq::empty()
    } else {
        let before = pairs_of(kept, vs, i - 1);
        if names(kept).contains(vs[i - 1].name) {
            before
        } else {
            before.push(((i - 1) as i32, (kept.len() + before.len()) as i32))
        }
    }
}

/// What is copied where.
pub struct VarsJob {
    pub part: Part,
    pub src: i32,
    pub dst: i32,
    /// The output dimension of each source dimension.
    pub dim_map: Seq<i32>,
    /// The variables whose definitions the output had before.
    pub kept: Seq<Var>,
    /// The source dataset.
    pub from: Dataset,
    /// The dimensions of the output.
    pub to: Seq<Dim>,
}

impl VarsJob {
    /// The state of the copying between two variables, after the first `i`.
    pub open spec fn state(self, i: int) -> DefineState {
        DefineState {
            part: self.part,
            src: self.src,
            dst: self.dst,
            dim_map: self.dim_map,
            pairs: pairs_of(self.kept, self.from.vars, i),
            stage: DefineStage::Count,
        }
    }

    /// The number of source variables.
    pub open spec fn nvars(self) -> i32 {
        self.from.vars.len() as i32
    }

    /// The definitions that the output has after the first `i` variables.
    pub open spec fn out(self, i: int) -> Seq<Var> {
        shells(vars_out(self.kept, self.from.vars.take(i), self.from.dims, self.to))
    }

    /// The names of the variables that the output has after the first `i` variables.
    pub open spec fn copied(self, i: int) -> Set<Seq<char>> {
        name_texts(first_wins(self.kept, self.from.vars.take(i)))
    }

    /// The copying after the first `i` variables. `s` and `w` say how everything else stands.
    pub open spec fn at(self, s: MergeState, w: World, i: int) -> Config {
        Config {
            merge: MergeState { copied_vars: self.copied(i), ..s }.after_vars(
                self.part,
                self.state(i).at_var(self.nvars(), i),
            ),
            world: w.put(self.dst, Dataset { vars: self.out(i), ..w.open[self.dst] }),
        }
    }

    /// The output definition of the variable `i` with its first `a` attributes.
    pub open spec fn partial(self, i: int, a: int) -> Var {
        Var {
            atts: self.from.vars[i].atts.take(a),
            ..shell(moved(self.from.vars[i], self.from.dims, self.to))
        }
    }

    /// The copying after the first `i` variables and the first `a` attributes of the next, whose
    /// definition is in the output.
    pub open spec fn at_att(self, s: MergeState, w: World, i: int, a: int) -> Config {
        let v = self.from.vars[i];
        let (copied, step) = self.state(i).at_att(
            self.copied(i),
            self.nvars(),
            i as i32,
            decode_utf8(v.name),
            self.out(i).len() as i32,
            v.atts.len() as i32,
            a,
        );
        Config {
            merge: MergeState { copied_vars: copied, ..s }.after_vars(self.part, step),
            world: w.put(
                self.dst,
                Dataset { vars: self.out(i).push(self.partial(i, a)), ..w.open[self.dst] },
            ),
        }
    }

    /// Whether the copying can be done.
    pub open spec fn ready(self, w: World) -> bool {
        &&& w.open.contains_key(self.src)
        &&& w.open.contains_key(self.dst)
        &&& self.src != self.dst
        &&& w.open[self.src] == self.from
        &&& w.open[self.dst].dims == self.to
        &&& w.defining == Some(self.dst)
        &&& well_named(self.kept)
        &&& well_named(self.from.vars)
        &&& first_wins(self.kept, self.from.vars).len() <= i32::MAX
        &&& self.from.dims.len() <= i32::MAX
        &&& self.to.len() <= i32::MAX
        &&& self.dim_map.len() == self.from.dims.len()
        &&& forall|k: int|
            #![trigger self.dim_map[k]]
            0 <= k < self.dim_map.len() ==> {
                &&& 0 <= self.dim_map[k] < self.to.len()
                &&& self.dim_map[k] == dim_at(self.to, self.from.dims[k].name)
            }
        &&& forall|i: int|
            #![trigger self.from.vars[i]]
            0 <= i < self.from.vars.len() ==> {
                &&& well_named(self.from.vars[i].atts)
                &&& forall|j: int|
                    0 <= j < self.from.vars[i].dims.len() ==> 0
                        <= #[trigger] self.from.vars[i].dims[j] < self.from.dims.len()
            }
    }

    /// As many variables are copied as have IDs, and all have positions that can be IDs.
    pub proof fn lemma_lens(self, i: int)
        requires
            0 <= i <= self.from.vars.len(),
        ensures
            self.out(i).len() == self.kept.len() + fresh(self.kept, self.from.vars.take(i)).len(),
            pairs_of(self.kept, self.from.vars, i).len() == fresh(
                self.kept,
                self.from.vars.take(i),
            ).len(),
            self.out(i).len() <= first_wins(self.kept, self.from.vars).len(),
            self.out(i).len() == first_wins(self.kept, self.from.vars.take(i)).len(),
            names(self.out(i)) == names(first_wins(self.kept, self.from.vars.take(i))),
        decreases i,
    {
        let vs = self.from.vars;
        assert(vs.take(vs.len() as int) =~= vs);
        lemma_fresh_prefix(self.kept, vs, i, vs.len() as int);
        if i > 0 {
            self.lemma_lens(i - 1);
            lemma_fresh_step(self.kept, vs, i - 1);
        } else {
            lemma_nothing_fresh(self.kept, vs);
        }
        assert(names(self.out(i)) =~= names(first_wins(self.kept, vs.take(i))));
    }

    /// A name is among the copied ones where `kept` has it.
    proof fn lemma_copied(self, w: World, i: int)
        requires
            self.ready(w),
            0 <= i < self.from.vars.len(),
        ensures
            good_name(self.from.vars[i].name),
            self.copied(i).contains(decode_utf8(self.from.vars[i].name)) <==> names(
                self.kept,
            ).contains(self.from.vars[i].name),
            names(self.out(i)).contains(self.from.vars[i].name) <==> names(self.kept).contains(
                self.from.vars[i].name,
            ),
    {
        let vs = self.from.vars;
        let so_far = first_wins(self.kept, vs.take(i));
        assert(good_name(vs[i].name()));
        lemma_first_wins_named(self.kept, vs, i);
        lemma_seen(self.kept, vs, i);
        assert forall|k: int| 0 <= k < so_far.len() implies good_name(
            #[trigger] so_far[k].name(),
        ) by {}
        lemma_name_texts(so_far, vs[i].name);
        self.lemma_lens(i);
    }

    /// One attribute of a variable is copied.
    proof fn lemma_att_step(self, s: MergeState, w: World, i: int, a: int)
        requires
            self.ready(w),
            0 <= i < self.from.vars.len(),
            0 <= a < self.from.vars[i].atts.len(),
        ensures
            self.at_att(s, w, i, a).reaches(self.at_att(s, w, i, a + 1)),
    {
        let c = self.at_att(s, w, i, a);
        let goal = self.at_att(s, w, i, a + 1);
        let xs = self.from.vars[i].atts;
        let n = xs[a].name;
        self.lemma_lens(i);
        assert(good_name(xs[a].name()));
        lemma_name_round_trip(n);
        lemma_att_at(xs, a);
        assert(!names(xs.take(a)).contains(n)) by {
            if names(xs.take(a)).contains(n) {
                let k = choose|k: int|
                    0 <= k < names(xs.take(a)).len() && names(xs.take(a))[k] == n;
                assert(names(xs)[k] == names(xs)[a]);
            }
        }
        assert(xs.take(a + 1) =~= xs.take(a).push(xs[a]));
        let d = c.step();
        assert(d.world =~= c.world);
        assert(d.step().world.open[self.dst].vars =~= goal.world.open[self.dst].vars);
        assert(d.step().world.open =~= goal.world.open);
        assert(d.step() =~= goal);
        lemma_reaches_self(goal);
        lemma_reaches_step(d, goal);
        lemma_reaches_step(c, goal);
    }

    /// The first `b` attributes of a variable are copied.
    proof fn lemma_atts_run(self, s: MergeState, w: World, i: int, b: int)
        requires
            self.ready(w),
            0 <= i < self.from.vars.len(),
            0 <= b <= self.from.vars[i].atts.len(),
        ensures
            self.at_att(s, w, i, 0).reaches(self.at_att(s, w, i, b)),
        decreases b,
    {
        if b == 0 {
            lemma_reaches_self(self.at_att(s, w, i, 0));
        } else {
            self.lemma_atts_run(s, w, i, b - 1);
            self.lemma_att_step(s, w, i, b - 1);
            lemma_reaches_trans(
                self.at_att(s, w, i, 0),
                self.at_att(s, w, i, b - 1),
                self.at_att(s, w, i, b),
            );
        }
    }

    /// A variable whose attributes are all copied is copied.
    proof fn lemma_atts_end(self, s: MergeState, w: World, i: int)
        requires
            self.ready(w),
            0 <= i < self.from.vars.len(),
            !names(self.kept).contains(self.from.vars[i].name),
        ensures
            self.at_att(s, w, i, self.from.vars[i].atts.len() as int) == self.at(s, w, i + 1),
    {
        let vs = self.from.vars;
        let v = vs[i];
        self.lemma_lens(i);
        self.lemma_lens(i + 1);
        lemma_fresh_step(self.kept, vs, i);
        let so_far = first_wins(self.kept, vs.take(i));
        assert(first_wins(self.kept, vs.take(i + 1)) =~= so_far.push(v));
        lemma_name_texts_push(so_far, v);
        assert(v.atts.take(v.atts.len() as int) =~= v.atts);
        assert(self.out(i + 1) =~= self.out(i).push(self.partial(i, v.atts.len() as int)));
    }

    /// The variable `i` is defined in the output.
    proof fn lemma_define(self, s: MergeState, w: World, i: int)
        requires
            self.ready(w),
            0 <= i < self.from.vars.len(),
            !names(self.kept).contains(self.from.vars[i].name),
            supported_type(self.from.vars[i].xtype),
        ensures
            self.at(s, w, i).reaches(self.at_att(s, w, i, 0)),
    {
        let c = self.at(s, w, i);
        let goal = self.at_att(s, w, i, 0);
        let v = self.from.vars[i];
        self.lemma_lens(i);
        self.lemma_copied(w, i);
        lemma_name_round_trip(v.name);
        let dimids = Seq::new(v.dims.len(), |j: int| v.dims[j] as i32);
        let out_dimids = Seq::new(dimids.len(), |j: int| self.dim_map[dimids[j] as int]);
        assert forall|j: int| 0 <= j < dimids.len() implies known_dim(
            self.dim_map,
            #[trigger] dimids[j],
        ) by {
            assert(0 <= v.dims[j] < self.from.dims.len());
        }
        assert(mapped_dims(self.dim_map, dimids, decode_utf8(v.name)) == Ok::<
            Seq<i32>,
            Seq<char>,
        >(out_dimids));
        assert forall|j: int| 0 <= j < out_dimids.len() implies 0 <= #[trigger] out_dimids[j]
            < self.to.len() by {
            assert(0 <= v.dims[j] < self.from.dims.len());
            assert(out_dimids[j] == self.dim_map[v.dims[j]]);
        }
        let d = c.step();
        assert(d.world =~= c.world);
        assert(Seq::new(out_dimids.len(), |j: int| out_dimids[j] as int) =~= moved(
            v,
            self.from.dims,
            self.to,
        ).dims) by {
            assert forall|j: int| 0 <= j < out_dimids.len() implies out_dimids[j] as int
                == #[trigger] moved(v, self.from.dims, self.to).dims[j] by {
                assert(0 <= v.dims[j] < self.from.dims.len());
                assert(out_dimids[j] == self.dim_map[v.dims[j]]);
            }
        }
        assert(v.atts.take(0) =~= Seq::empty());
        assert(d.step().world.open[self.dst].vars =~= goal.world.open[self.dst].vars);
        assert(d.step().world.open =~= goal.world.open);
        assert(d.step() =~= goal);
        lemma_reaches_self(goal);
        lemma_reaches_step(d, goal);
        lemma_reaches_step(c, goal);
    }

    /// One variable is copied or skipped.
    proof fn lemma_step(self, s: MergeState, w: World, i: int)
        requires
            self.ready(w),
            0 <= i < self.from.vars.len(),
            names(self.kept).contains(self.from.vars[i].name) || supported_type(
                self.from.vars[i].xtype,
            ),
        ensures
            self.at(s, w, i).reaches(self.at(s, w, i + 1)),
    {
        let vs = self.from.vars;
        let c = self.at(s, w, i);
        let goal = self.at(s, w, i + 1);
        if names(self.kept).contains(vs[i].name) {
            self.lemma_lens(i);
            self.lemma_copied(w, i);
            lemma_name_round_trip(vs[i].name);
            lemma_fresh_step(self.kept, vs, i);
            assert(first_wins(self.kept, vs.take(i + 1)) =~= first_wins(self.kept, vs.take(i)));
            assert(c.step() =~= goal);
            lemma_reaches_self(goal);
            lemma_reaches_step(c, goal);
        } else {
            self.lemma_define(s, w, i);
            self.lemma_atts_run(s, w, i, vs[i].atts.len() as int);
            self.lemma_atts_end(s, w, i);
            lemma_reaches_trans(c, self.at_att(s, w, i, 0), goal);
        }
    }

    /// The first `j` variables are copied or skipped.
    pub proof fn lemma_run(self, s: MergeState, w: World, j: int)
        requires
            self.ready(w),
            0 <= j <= self.from.vars.len(),
            forall|i: int|
                0 <= i < j ==> names(self.kept).contains((#[trigger] self.from.vars[i]).name)
                    || supported_type(self.from.vars[i].xtype),
        ensures
            self.at(s, w, 0).reaches(self.at(s, w, j)),
        decreases j,
    {
        if j == 0 {
            lemma_reaches_self(self.at(s, w, 0));
        } else {
            self.lemma_run(s, w, j - 1);
            self.lemma_step(s, w, j - 1);
            lemma_reaches_trans(self.at(s, w, 0), self.at(s, w, j - 1), self.at(s, w, j));
        }
    }

    /// The copying as it begins leads to the first variable.
    pub proof fn lemma_begin(self, s: MergeState, w: World)
        requires
            self.ready(w),
            s.stage == MergeStage::Vars(
                DefineState::start(self.part, self.src, self.dst, self.dim_map),
            ),
            s.copied_vars == name_texts(self.kept),
            w.open[self.dst].vars == shells(self.kept),
        ensures
            running(s, w).reaches(self.at(s, w, 0)),
    {
        let c = running(s, w);
        let goal = self.at(s, w, 0);
        lemma_nothing_fresh(self.kept, self.from.vars);
        self.lemma_lens(0);
        assert(self.out(0) =~= shells(self.kept));
        assert(goal.world.open =~= w.open);
        assert(c.step() =~= goal);
        lemma_reaches_self(goal);
        lemma_reaches_step(c, goal);
    }

    /// A variable that is not skipped and whose type is not merged ends the merge.
    pub proof fn lemma_unsupported(self, s: MergeState, w: World, j: int)
        requires
            self.ready(w),
            0 <= j < self.from.vars.len(),
            !names(self.kept).contains(self.from.vars[j].name),
            !supported_type(self.from.vars[j].xtype),
        ensures
            self.at(s, w, j).ends_with(
                Err(
                    unsupported_text(
                        decode_utf8(self.from.vars[j].name),
                        self.part,
                        self.from.vars[j].xtype,
                    ),
                ),
            ),
    {
        let c = self.at(s, w, j);
        self.lemma_copied(w, j);
        lemma_name_round_trip(self.from.vars[j].name);
        let d = c.step();
        lemma_reaches_self(d);
        lemma_reaches_step(c, d);
        lemma_reaches_end(
            c,
            d,
            Err(
                unsupported_text(
                    decode_utf8(self.from.vars[j].name),
                    self.part,
                    self.from.vars[j].xtype,
                ),
            ),
        );
    }
}

} // verus!
