//! A whole merge, from its first call to its last.

use vstd::prelude::*;
use crate::attributes::AttState;
use crate::dimensions::{DimState, OutDims};
use crate::merge::{MergeModel, MergeStage, MergeState};
use crate::model::{
    all_moved, compatible, conflicts, definable, dim_at, first_wins, fresh, lemma_all_fresh,
    lemma_first_wins_named, lemma_fresh_members, lemma_fresh_prefix, lemma_fresh_step, measurable,
    merged, mergeable, moved, names, numberable, supported, well_named, Att, Dataset, Dim, Named,
    Var,
};
use crate::netcdf::{
    lemma_reaches_end, lemma_reaches_self, lemma_reaches_step, lemma_reaches_trans, running,
    Config, World,
};
use crate::protocol::{supported_type, Part};
use crate::runs::atts::{atts_at, lemma_atts_run};
use crate::runs::data::{filled, DataJob};
use crate::runs::dims::{
    dim_map, dim_table, dims_at, lemma_dim_at, lemma_dims_begin, lemma_dims_run,
};
use crate::runs::vars::{pairs_of, shells, vars_out, VarsJob};
use crate::runs::{good_name, name_texts};
use crate::variables::DefineState;

verus! {

/// Two files to merge, and NetCDF-C before the merge.
pub struct Scene {
    pub a: Seq<u8>,
    pub b: Seq<u8>,
    pub w: World,
}

impl Scene {
    /// The dataset in part A.
    pub open spec fn set_a(self) -> Dataset {
        (self.w.files)(self.a)
    }

    /// The dataset in part B.
    pub open spec fn set_b(self) -> Dataset {
        (self.w.files)(self.b)
    }

    /// The merged dataset.
    pub open spec fn set_out(self) -> Dataset {
        merged(self.set_a(), self.set_b())
    }

    /// The ID of part A.
    pub open spec fn id_a(self) -> i32 {
        (self.w.ids)(self.w.next)
    }

    /// The ID of part B.
    pub open spec fn id_b(self) -> i32 {
        (self.w.ids)(self.w.next + 1)
    }

    /// The ID of the output.
    pub open spec fn id_out(self) -> i32 {
        (self.w.ids)(self.w.next + 2)
    }

    /// Both files hold datasets, and NetCDF-C has different IDs for the three datasets and no
    /// strings to free.
    pub open spec fn ready(self) -> bool {
        &&& self.set_a().valid(self.w.type_size)
        &&& self.set_b().valid(self.w.type_size)
        &&& self.w.strings.len() == 0
        &&& self.id_a() != self.id_b()
        &&& self.id_a() != self.id_out()
        &&& self.id_b() != self.id_out()
    }

    /// The merge before its first call.
    pub open spec fn start(self) -> Config {
        Config { merge: MergeModel::start(self.a, self.b), world: self.w }
    }

    /// NetCDF-C while the output holds `out`.
    pub open spec fn world(self, out: Dataset, defining: Option<i32>) -> World {
        World {
            open: self.w.open.insert(self.id_a(), self.set_a()).insert(
                self.id_b(),
                self.set_b(),
            ).insert(self.id_out(), out),
            next: self.w.next + 3,
            defining,
            ..self.w
        }
    }

    /// The merge while the dimensions are copied.
    pub open spec fn state_dims(
        self,
        out_dims: OutDims,
        dim_map_a: Seq<i32>,
        stage: MergeStage,
    ) -> MergeState {
        MergeState {
            a: self.a,
            b: self.b,
            ncid_a: self.id_a(),
            ncid_b: self.id_b(),
            ncid_out: self.id_out(),
            out_dims,
            dim_map_a,
            dim_map_b: Seq::empty(),
            copied_atts: Set::empty(),
            copied_vars: Set::empty(),
            vars_a: Seq::empty(),
            vars_b: Seq::empty(),
            stage,
        }
    }

    /// The copying of the dimensions of part A.
    pub open spec fn dims_a(self) -> MergeState {
        self.state_dims(
            Map::empty(),
            Seq::empty(),
            MergeStage::Dims(DimState::start(Part::A, self.id_a(), self.id_out())),
        )
    }

    /// The output dimension of each dimension of part A.
    pub open spec fn map_a(self) -> Seq<i32> {
        dim_map(Seq::empty(), self.set_a().dims)
    }

    /// The output dimension of each dimension of part B.
    pub open spec fn map_b(self) -> Seq<i32> {
        dim_map(self.set_a().dims, self.set_b().dims)
    }

    /// The copying of the dimensions of part B.
    pub open spec fn dims_b(self) -> MergeState {
        self.state_dims(
            dim_table(self.set_a().dims),
            self.map_a(),
            MergeStage::Dims(DimState::start(Part::B, self.id_b(), self.id_out())),
        )
    }

    /// The merge once the dimensions are copied.
    pub open spec fn state(
        self,
        copied_atts: Set<Seq<char>>,
        copied_vars: Set<Seq<char>>,
        vars_a: Seq<(i32, i32)>,
        vars_b: Seq<(i32, i32)>,
        stage: MergeStage,
    ) -> MergeState {
        MergeState {
            dim_map_b: self.map_b(),
            copied_atts,
            copied_vars,
            vars_a,
            vars_b,
            ..self.state_dims(dim_table(self.set_out().dims), self.map_a(), stage)
        }
    }

    /// The copying of the global attributes of part A.
    pub open spec fn atts_a(self) -> MergeState {
        self.state(
            Set::empty(),
            Set::empty(),
            Seq::empty(),
            Seq::empty(),
            MergeStage::Atts(AttState::start(Part::A, self.id_a(), self.id_out())),
        )
    }

    /// The copying of the global attributes of part B.
    pub open spec fn atts_b(self) -> MergeState {
        self.state(
            name_texts(self.set_a().atts),
            Set::empty(),
            Seq::empty(),
            Seq::empty(),
            MergeStage::Atts(AttState::start(Part::B, self.id_b(), self.id_out())),
        )
    }

    /// The copying of the variable definitions of part A.
    pub open spec fn vars_a(self) -> MergeState {
        self.state(
            name_texts(self.set_out().atts),
            Set::empty(),
            Seq::empty(),
            Seq::empty(),
            MergeStage::Vars(
                DefineState::start(Part::A, self.id_a(), self.id_out(), self.map_a()),
            ),
        )
    }

    /// The IDs of the variables of part A.
    pub open spec fn pairs_a(self) -> Seq<(i32, i32)> {
        pairs_of(Seq::empty(), self.set_a().vars, self.set_a().vars.len() as int)
    }

    /// The IDs of the variables that are copied from part B.
    pub open spec fn pairs_b(self) -> Seq<(i32, i32)> {
        pairs_of(self.set_a().vars, self.set_b().vars, self.set_b().vars.len() as int)
    }

    /// The copying of the variable definitions of part B.
    pub open spec fn vars_b(self) -> MergeState {
        self.state(
            name_texts(self.set_out().atts),
            name_texts(self.set_a().vars),
            self.pairs_a(),
            Seq::empty(),
            MergeStage::Vars(
                DefineState::start(Part::B, self.id_b(), self.id_out(), self.map_b()),
            ),
        )
    }

    /// The merge once everything is defined.
    pub open spec fn defined(self, stage: MergeStage) -> MergeState {
        self.state(
            name_texts(self.set_out().atts),
            name_texts(first_wins(self.set_a().vars, self.set_b().vars)),
            self.pairs_a(),
            self.pairs_b(),
            stage,
        )
    }

    /// The output with the dimensions `dims` and nothing else.
    pub open spec fn out_dims(self, dims: Seq<Dim>) -> Dataset {
        Dataset { dims, ..Dataset::empty() }
    }

    /// The output with all its dimensions and the attributes `atts`.
    pub open spec fn out_atts(self, atts: Seq<Att>) -> Dataset {
        Dataset { atts, ..self.out_dims(self.set_out().dims) }
    }

    /// The output with all its dimensions and attributes and the variables `vars`.
    pub open spec fn out_vars(self, vars: Seq<Var>) -> Dataset {
        Dataset { vars, ..self.out_atts(self.set_out().atts) }
    }

    /// The three datasets are open under IDs of their own.
    pub proof fn lemma_world(self, out: Dataset, defining: Option<i32>)
        requires
            self.ready(),
        ensures
            self.id_a() != self.id_b(),
            self.id_a() != self.id_out(),
            self.id_b() != self.id_out(),
            self.world(out, defining).open.contains_key(self.id_a()),
            self.world(out, defining).open.contains_key(self.id_b()),
            self.world(out, defining).open.contains_key(self.id_out()),
            self.world(out, defining).open[self.id_a()] == self.set_a(),
            self.world(out, defining).open[self.id_b()] == self.set_b(),
            self.world(out, defining).open[self.id_out()] == out,
    {
    }

    /// Replacing the output.
    pub proof fn lemma_put(self, before: Dataset, after: Dataset, defining: Option<i32>)
        requires
            self.ready(),
        ensures
            self.world(before, defining).put(self.id_out(), after) == self.world(after, defining),
    {
        assert(self.world(before, defining).put(self.id_out(), after).open =~= self.world(
            after,
            defining,
        ).open);
    }

    /// The first calls take the lock, open both files and create the output.
    pub proof fn lemma_open(self)
        requires
            self.ready(),
        ensures
            self.start().reaches(
                running(self.dims_a(), self.world(Dataset::empty(), Some(self.id_out()))),
            ),
    {
        let goal = running(self.dims_a(), self.world(Dataset::empty(), Some(self.id_out())));
        let c1 = self.start().step();
        let c2 = c1.step();
        let c3 = c2.step();
        let c4 = c3.step();
        assert(c4.world.open =~= goal.world.open);
        assert(c4 =~= goal);
        lemma_reaches_self(goal);
        lemma_reaches_step(c3, goal);
        lemma_reaches_step(c2, goal);
        lemma_reaches_step(c1, goal);
        lemma_reaches_step(self.start(), goal);
    }

    /// The dimensions of part A are copied.
    pub proof fn lemma_dims_a(self)
        requires
            self.ready(),
        ensures
            running(self.dims_a(), self.world(Dataset::empty(), Some(self.id_out()))).reaches(
                running(
                    self.dims_b(),
                    self.world(self.out_dims(self.set_a().dims), Some(self.id_out())),
                ),
            ),
    {
        let w = self.world(Dataset::empty(), Some(self.id_out()));
        let none = Seq::<Dim>::empty();
        let ds = self.set_a().dims;
        self.lemma_world(Dataset::empty(), Some(self.id_out()));
        lemma_all_fresh(ds);
        assert(first_wins(none, ds) =~= ds);
        assert(ds.take(ds.len() as int) =~= ds);
        lemma_dims_begin(self.dims_a(), w, Part::A, self.id_a(), self.id_out(), none, ds);
        lemma_dims_run(
            self.dims_a(),
            w,
            Part::A,
            self.id_a(),
            self.id_out(),
            none,
            ds,
            ds.len() as int,
        );
        let end = dims_at(
            self.dims_a(),
            w,
            Part::A,
            self.id_a(),
            self.id_out(),
            none,
            ds,
            ds.len() as int,
        );
        self.lemma_put(Dataset::empty(), self.out_dims(ds), Some(self.id_out()));
        assert(dim_map(none, ds).take(ds.len() as int) =~= dim_map(none, ds));
        assert(end =~= running(self.dims_b(), self.world(self.out_dims(ds), Some(self.id_out()))));
        lemma_reaches_trans(
            running(self.dims_a(), w),
            dims_at(self.dims_a(), w, Part::A, self.id_a(), self.id_out(), none, ds, 0),
            end,
        );
    }

    /// The copying of the dimensions of part B comes to its dimension `j` where none before it
    /// conflicts.
    pub proof fn lemma_dims_b_until(self, j: int)
        requires
            self.ready(),
            first_wins(self.set_a().dims, self.set_b().dims).len() <= i32::MAX,
            0 <= j <= self.set_b().dims.len(),
            compatible(self.set_a().dims, self.set_b().dims.take(j)),
        ensures
            self.start().reaches(
                dims_at(
                    self.dims_b(),
                    self.world(self.out_dims(self.set_a().dims), Some(self.id_out())),
                    Part::B,
                    self.id_b(),
                    self.id_out(),
                    self.set_a().dims,
                    self.set_b().dims,
                    j,
                ),
            ),
    {
        let out = self.out_dims(self.set_a().dims);
        let w = self.world(out, Some(self.id_out()));
        let kept = self.set_a().dims;
        let ds = self.set_b().dims;
        self.lemma_open();
        self.lemma_dims_a();
        self.lemma_world(out, Some(self.id_out()));
        lemma_dims_begin(self.dims_b(), w, Part::B, self.id_b(), self.id_out(), kept, ds);
        assert forall|i: int| 0 <= i < j implies !conflicts(
            kept,
            #[trigger] ds[i],
        ) by {
            assert(ds.take(j)[i] == ds[i]);
        }
        lemma_dims_run(self.dims_b(), w, Part::B, self.id_b(), self.id_out(), kept, ds, j);
        let first = dims_at(
            self.dims_b(),
            w,
            Part::B,
            self.id_b(),
            self.id_out(),
            kept,
            ds,
            0,
        );
        lemma_reaches_trans(
            self.start(),
            running(self.dims_a(), self.world(Dataset::empty(), Some(self.id_out()))),
            running(self.dims_b(), w),
        );
        lemma_reaches_trans(self.start(), running(self.dims_b(), w), first);
        lemma_reaches_trans(
            self.start(),
            first,
            dims_at(self.dims_b(), w, Part::B, self.id_b(), self.id_out(), kept, ds, j),
        );
    }

    /// The dimensions of both parts are copied.
    pub proof fn lemma_dims(self)
        requires
            self.ready(),
            first_wins(self.set_a().dims, self.set_b().dims).len() <= i32::MAX,
            compatible(self.set_a().dims, self.set_b().dims),
        ensures
            self.start().reaches(
                running(
                    self.atts_a(),
                    self.world(self.out_dims(self.set_out().dims), Some(self.id_out())),
                ),
            ),
    {
        let out = self.out_dims(self.set_a().dims);
        let w = self.world(out, Some(self.id_out()));
        let kept = self.set_a().dims;
        let ds = self.set_b().dims;
        assert(ds.take(ds.len() as int) =~= ds);
        self.lemma_dims_b_until(ds.len() as int);
        let end = dims_at(
            self.dims_b(),
            w,
            Part::B,
            self.id_b(),
            self.id_out(),
            kept,
            ds,
            ds.len() as int,
        );
        self.lemma_world(out, Some(self.id_out()));
        self.lemma_put(out, self.out_dims(self.set_out().dims), Some(self.id_out()));
        assert(dim_map(kept, ds).take(ds.len() as int) =~= dim_map(kept, ds));
        assert(end =~= running(
            self.atts_a(),
            self.world(self.out_dims(self.set_out().dims), Some(self.id_out())),
        ));
    }

    /// The global attributes of both parts are copied.
    pub proof fn lemma_atts(self)
        requires
            self.ready(),
            first_wins(self.set_a().dims, self.set_b().dims).len() <= i32::MAX,
            compatible(self.set_a().dims, self.set_b().dims),
        ensures
            self.start().reaches(
                running(
                    self.vars_a(),
                    self.world(self.out_atts(self.set_out().atts), Some(self.id_out())),
                ),
            ),
    {
        let none = Seq::<Att>::empty();
        let xs = self.set_a().atts;
        let ys = self.set_b().atts;
        let def = Some(self.id_out());
        let out0 = self.out_dims(self.set_out().dims);
        let out1 = self.out_atts(xs);
        let out2 = self.out_atts(self.set_out().atts);
        let c0 = running(self.atts_a(), self.world(out0, def));
        let c1 = running(self.atts_b(), self.world(out1, def));
        let c2 = running(self.vars_a(), self.world(out2, def));
        self.lemma_dims();
        self.lemma_world(out0, def);
        self.lemma_world(out1, def);
        lemma_all_fresh(xs);
        assert(first_wins(none, xs) =~= xs);
        assert(xs.take(xs.len() as int) =~= xs);
        assert(ys.take(ys.len() as int) =~= ys);
        assert(name_texts(none) =~= Set::<Seq<char>>::empty());
        lemma_atts_run(
            self.atts_a(),
            self.world(out0, def),
            Part::A,
            self.id_a(),
            self.id_out(),
            none,
            xs,
        );
        self.lemma_put(out0, out1, def);
        assert(atts_at(
            self.atts_a(),
            self.world(out0, def),
            Part::A,
            self.id_a(),
            self.id_out(),
            none,
            xs,
            xs.len() as int,
        ) =~= c1);
        lemma_atts_run(
            self.atts_b(),
            self.world(out1, def),
            Part::B,
            self.id_b(),
            self.id_out(),
            xs,
            ys,
        );
        self.lemma_put(out1, out2, def);
        assert(atts_at(
            self.atts_b(),
            self.world(out1, def),
            Part::B,
            self.id_b(),
            self.id_out(),
            xs,
            ys,
            ys.len() as int,
        ) =~= c2);
        lemma_reaches_trans(self.start(), c0, c1);
        lemma_reaches_trans(self.start(), c1, c2);
    }

    /// No two merged dimensions are called alike.
    proof fn lemma_to(self)
        requires
            self.ready(),
        ensures
            names(self.set_out().dims).no_duplicates(),
    {
        let b = self.set_b().dims;
        assert(b.take(b.len() as int) =~= b);
        lemma_first_wins_named(self.set_a().dims, b, b.len() as int);
    }

    /// Where the dimension `k` of part A is among the merged ones.
    proof fn lemma_map_a(self, k: int)
        requires
            self.ready(),
            0 <= k < self.set_a().dims.len(),
        ensures
            self.map_a()[k] == k,
            dim_at(self.set_out().dims, self.set_a().dims[k].name) == k,
    {
        let a = self.set_a().dims;
        self.lemma_to();
        lemma_all_fresh(a);
        assert(first_wins(Seq::<Dim>::empty(), a) =~= a);
        lemma_dim_at(a, k);
        assert(self.set_out().dims[k] == a[k]);
        lemma_dim_at(self.set_out().dims, k);
    }

    /// Where the dimension `k` of part B is among the merged ones.
    proof fn lemma_map_b(self, k: int)
        requires
            self.ready(),
            first_wins(self.set_a().dims, self.set_b().dims).len() <= i32::MAX,
            0 <= k < self.set_b().dims.len(),
        ensures
            0 <= self.map_b()[k] < self.set_out().dims.len(),
            self.map_b()[k] == dim_at(self.set_out().dims, self.set_b().dims[k].name),
    {
        let a = self.set_a().dims;
        let b = self.set_b().dims;
        let to = self.set_out().dims;
        self.lemma_to();
        lemma_fresh_members(a, b);
        if names(a).contains(b[k].name) {
            let m = choose|m: int| 0 <= m < names(a).len() && names(a)[m] == b[k].name;
            assert(to[m] == a[m]);
            lemma_dim_at(to, m);
        } else {
            assert(!names(a).contains(b[k].name()));
            assert(fresh(a, b).contains(b[k]));
            let m = choose|m: int| 0 <= m < fresh(a, b).len() && fresh(a, b)[m] == b[k];
            assert(to[a.len() + m] == b[k]);
            lemma_dim_at(to, a.len() + m);
        }
    }

    /// The copying of the variable definitions of part A.
    pub open spec fn job_a(self) -> VarsJob {
        VarsJob {
            part: Part::A,
            src: self.id_a(),
            dst: self.id_out(),
            dim_map: self.map_a(),
            kept: Seq::empty(),
            from: self.set_a(),
            to: self.set_out().dims,
        }
    }

    /// The copying of the variable definitions of part B.
    pub open spec fn job_b(self) -> VarsJob {
        VarsJob {
            part: Part::B,
            src: self.id_b(),
            dst: self.id_out(),
            dim_map: self.map_b(),
            kept: self.set_a().vars,
            from: self.set_b(),
            to: self.set_out().dims,
        }
    }

    /// NetCDF-C when the variables of part A come to be defined.
    pub open spec fn world_vars_a(self) -> World {
        self.world(self.out_atts(self.set_out().atts), Some(self.id_out()))
    }

    /// NetCDF-C when the variables of part B come to be defined.
    pub open spec fn world_vars_b(self) -> World {
        self.world(self.out_vars(shells(self.set_a().vars)), Some(self.id_out()))
    }

    /// The variables of part A are on the same dimensions in the output.
    proof fn lemma_unmoved(self)
        requires
            self.ready(),
            first_wins(self.set_a().dims, self.set_b().dims).len() <= i32::MAX,
        ensures
            all_moved(self.set_a().vars, self.set_a().dims, self.set_out().dims)
                == self.set_a().vars,
    {
        let a = self.set_a();
        let to = self.set_out().dims;
        assert forall|i: int| 0 <= i < a.vars.len() implies #[trigger] moved(
            a.vars[i],
            a.dims,
            to,
        ) == a.vars[i] by {
            let v = a.vars[i];
            assert(a.holds(v, self.w.type_size));
            assert forall|k: int| 0 <= k < v.dims.len() implies dim_at(
                to,
                a.dims[#[trigger] v.dims[k]].name,
            ) == v.dims[k] by {
                self.lemma_map_a(v.dims[k]);
            }
            assert(moved(v, a.dims, to).dims =~= v.dims);
        }
        assert(all_moved(a.vars, a.dims, to) =~= a.vars);
    }

    /// The definitions of part A can be copied.
    proof fn lemma_job_a(self)
        requires
            self.ready(),
            first_wins(self.set_a().dims, self.set_b().dims).len() <= i32::MAX,
        ensures
            self.job_a().ready(self.world_vars_a()),
    {
        let none = Seq::<Var>::empty();
        let vs = self.set_a().vars;
        self.lemma_world(self.out_atts(self.set_out().atts), Some(self.id_out()));
        lemma_all_fresh(vs);
        assert(first_wins(none, vs) =~= vs);
        assert forall|i: int| #![trigger vs[i]] 0 <= i < vs.len() implies {
            &&& well_named(vs[i].atts)
            &&& forall|j: int|
                0 <= j < vs[i].dims.len() ==> 0 <= #[trigger] vs[i].dims[j]
                    < self.set_a().dims.len()
        } by {
            assert(self.set_a().holds(vs[i], self.w.type_size));
        }
        assert forall|k: int| #![trigger self.map_a()[k]] 0 <= k < self.map_a().len() implies {
            &&& 0 <= self.map_a()[k] < self.set_out().dims.len()
            &&& self.map_a()[k] == dim_at(self.set_out().dims, self.set_a().dims[k].name)
        } by {
            self.lemma_map_a(k);
        }
    }

    /// The copying of the definitions of part A comes to its variable `j` where all before it
    /// have types that are merged.
    pub proof fn lemma_vars_a_until(self, j: int)
        requires
            self.ready(),
            first_wins(self.set_a().dims, self.set_b().dims).len() <= i32::MAX,
            compatible(self.set_a().dims, self.set_b().dims),
            0 <= j <= self.set_a().vars.len(),
            supported(self.set_a().vars.take(j)),
        ensures
            self.job_a().ready(self.world_vars_a()),
            self.start().reaches(self.job_a().at(self.vars_a(), self.world_vars_a(), j)),
    {
        let c = running(self.vars_a(), self.world_vars_a());
        let job = self.job_a();
        self.lemma_atts();
        self.lemma_job_a();
        self.lemma_world(self.out_atts(self.set_out().atts), Some(self.id_out()));
        assert(name_texts(Seq::<Var>::empty()) =~= Set::<Seq<char>>::empty());
        assert(shells(Seq::<Var>::empty()) =~= Seq::<Var>::empty());
        job.lemma_begin(self.vars_a(), self.world_vars_a());
        assert forall|i: int| 0 <= i < j implies supported_type(
            (#[trigger] job.from.vars[i]).xtype,
        ) by {
            assert(self.set_a().vars.take(j)[i] == self.set_a().vars[i]);
        }
        job.lemma_run(self.vars_a(), self.world_vars_a(), j);
        lemma_reaches_trans(self.start(), c, job.at(self.vars_a(), self.world_vars_a(), 0));
        lemma_reaches_trans(
            self.start(),
            job.at(self.vars_a(), self.world_vars_a(), 0),
            job.at(self.vars_a(), self.world_vars_a(), j),
        );
    }

    /// All definitions of part A are copied.
    proof fn lemma_vars_a(self)
        requires
            self.ready(),
            first_wins(self.set_a().dims, self.set_b().dims).len() <= i32::MAX,
            compatible(self.set_a().dims, self.set_b().dims),
            supported(self.set_a().vars),
        ensures
            self.start().reaches(running(self.vars_b(), self.world_vars_b())),
    {
        let none = Seq::<Var>::empty();
        let vs = self.set_a().vars;
        let n = vs.len() as int;
        let end = self.job_a().at(self.vars_a(), self.world_vars_a(), n);
        assert(vs.take(n) =~= vs);
        self.lemma_vars_a_until(n);
        self.lemma_unmoved();
        self.lemma_world(self.out_atts(self.set_out().atts), Some(self.id_out()));
        lemma_all_fresh(vs);
        assert(first_wins(none, vs) =~= vs);
        assert(vars_out(none, vs, self.set_a().dims, self.set_out().dims) =~= vs);
        self.lemma_put(
            self.out_atts(self.set_out().atts),
            self.out_vars(shells(vs)),
            Some(self.id_out()),
        );
        assert(end =~= running(self.vars_b(), self.world_vars_b()));
    }

    /// The definitions of part B can be copied.
    proof fn lemma_job_b(self)
        requires
            self.ready(),
            first_wins(self.set_a().dims, self.set_b().dims).len() <= i32::MAX,
            first_wins(self.set_a().vars, self.set_b().vars).len() <= i32::MAX,
        ensures
            self.job_b().ready(self.world_vars_b()),
    {
        let vs = self.set_b().vars;
        self.lemma_world(self.out_vars(shells(self.set_a().vars)), Some(self.id_out()));
        assert forall|k: int| #![trigger self.map_b()[k]] 0 <= k < self.map_b().len() implies {
            &&& 0 <= self.map_b()[k] < self.set_out().dims.len()
            &&& self.map_b()[k] == dim_at(self.set_out().dims, self.set_b().dims[k].name)
        } by {
            self.lemma_map_b(k);
        }
        assert forall|i: int| #![trigger vs[i]] 0 <= i < vs.len() implies {
            &&& well_named(vs[i].atts)
            &&& forall|j: int|
                0 <= j < vs[i].dims.len() ==> 0 <= #[trigger] vs[i].dims[j]
                    < self.set_b().dims.len()
        } by {
            assert(self.set_b().holds(vs[i], self.w.type_size));
        }
    }

    /// The copying of the definitions of part B comes to its variable `j` where all before it
    /// are skipped or have types that are merged.
    pub proof fn lemma_vars_b_until(self, j: int)
        requires
            self.ready(),
            first_wins(self.set_a().dims, self.set_b().dims).len() <= i32::MAX,
            first_wins(self.set_a().vars, self.set_b().vars).len() <= i32::MAX,
            compatible(self.set_a().dims, self.set_b().dims),
            supported(self.set_a().vars),
            0 <= j <= self.set_b().vars.len(),
            forall|i: int|
                0 <= i < j ==> names(self.set_a().vars).contains(
                    (#[trigger] self.set_b().vars[i]).name,
                ) || supported_type(self.set_b().vars[i].xtype),
        ensures
            self.job_b().ready(self.world_vars_b()),
            self.start().reaches(self.job_b().at(self.vars_b(), self.world_vars_b(), j)),
    {
        let c = running(self.vars_b(), self.world_vars_b());
        let job = self.job_b();
        self.lemma_vars_a();
        self.lemma_job_b();
        self.lemma_world(self.out_vars(shells(self.set_a().vars)), Some(self.id_out()));
        job.lemma_begin(self.vars_b(), self.world_vars_b());
        job.lemma_run(self.vars_b(), self.world_vars_b(), j);
        lemma_reaches_trans(self.start(), c, job.at(self.vars_b(), self.world_vars_b(), 0));
        lemma_reaches_trans(
            self.start(),
            job.at(self.vars_b(), self.world_vars_b(), 0),
            job.at(self.vars_b(), self.world_vars_b(), j),
        );
    }

    /// All definitions of part B are copied.
    proof fn lemma_vars_b(self)
        requires
            self.ready(),
            definable(self.set_a(), self.set_b()),
            numberable(self.set_a(), self.set_b()),
        ensures
            self.start().reaches(
                running(
                    self.defined(MergeStage::EndDef),
                    self.world(self.out_vars(shells(self.set_out().vars)), Some(self.id_out())),
                ),
            ),
    {
        let vs = self.set_b().vars;
        let n = vs.len() as int;
        let kept = self.set_a().vars;
        let def = Some(self.id_out());
        let end = self.job_b().at(self.vars_b(), self.world_vars_b(), n);
        lemma_fresh_members(kept, vs);
        assert forall|i: int| 0 <= i < n implies names(kept).contains((#[trigger] vs[i]).name)
            || supported_type(vs[i].xtype) by {
            if !names(kept).contains(vs[i].name()) {
                assert(fresh(kept, vs).contains(vs[i]));
            }
        }
        self.lemma_vars_b_until(n);
        self.lemma_world(self.out_vars(shells(kept)), def);
        assert(vs.take(n) =~= vs);
        self.lemma_put(
            self.out_vars(shells(kept)),
            self.out_vars(shells(self.set_out().vars)),
            def,
        );
        assert(end =~= running(
            self.defined(MergeStage::EndDef),
            self.world(self.out_vars(shells(self.set_out().vars)), def),
        ));
    }

    /// NetCDF-C while the values are copied, with those of the first `n` variables in place.
    pub open spec fn world_data(self, n: int) -> World {
        self.world(self.out_vars(filled(self.set_out().vars, n)), None)
    }

    /// The copying of the values of part A.
    pub open spec fn data_a(self) -> DataJob {
        DataJob {
            part: Part::A,
            src: self.id_a(),
            dst: self.id_out(),
            pairs: self.pairs_a(),
            from: self.set_a(),
            out: self.set_out().vars,
            offset: 0,
        }
    }

    /// The copying of the values of part B.
    pub open spec fn data_b(self) -> DataJob {
        DataJob {
            part: Part::B,
            src: self.id_b(),
            dst: self.id_out(),
            pairs: self.pairs_b(),
            from: self.set_b(),
            out: self.set_out().vars,
            offset: self.set_a().vars.len() as int,
        }
    }

    /// The values of part A can be copied.
    proof fn lemma_data_a(self)
        requires
            self.ready(),
            definable(self.set_a(), self.set_b()),
            numberable(self.set_a(), self.set_b()),
        ensures
            self.data_a().ready(self.world_data(0)),
            self.pairs_a().len() == self.set_a().vars.len(),
            forall|j: int|
                #![trigger self.pairs_a()[j]]
                0 <= j < self.pairs_a().len() ==> self.data_a().var(j) == self.set_a().vars[j],
    {
        let none = Seq::<Var>::empty();
        let vs = self.set_a().vars;
        let n = vs.len() as int;
        let job = self.data_a();
        assert(vs.take(n) =~= vs);
        lemma_all_fresh(vs);
        lemma_pairs(none, vs, n);
        self.lemma_world(self.out_vars(filled(self.set_out().vars, 0)), None);
        assert forall|j: int| #![trigger job.pairs[j]] 0 <= j < job.pairs.len() implies {
            &&& 0 <= job.pairs[j].0 < job.from.vars.len()
            &&& job.pairs[j].1 == job.offset + j
            &&& job.offset + j < job.out.len()
            &&& job.out[job.offset + j].values == job.var(j).values
            &&& good_name(job.var(j).name)
            &&& job.from.holds(job.var(j), self.w.type_size)
        } by {
            assert(vs[j] == vs[job.pairs[j].0 as int]);
            assert(self.set_out().vars[j] == vs[j]);
            assert(good_name(vs[j].name()));
            assert(self.set_a().holds(vs[j], self.w.type_size));
        }
    }

    /// The values of part B can be copied.
    proof fn lemma_data_b(self)
        requires
            self.ready(),
            definable(self.set_a(), self.set_b()),
            numberable(self.set_a(), self.set_b()),
        ensures
            self.data_b().ready(self.world_data(self.set_a().vars.len() as int)),
            self.pairs_b().len() == fresh(self.set_a().vars, self.set_b().vars).len(),
            forall|j: int|
                #![trigger self.pairs_b()[j]]
                0 <= j < self.pairs_b().len() ==> self.data_b().var(j) == fresh(
                    self.set_a().vars,
                    self.set_b().vars,
                )[j],
    {
        let kept = self.set_a().vars;
        let vs = self.set_b().vars;
        let n = vs.len() as int;
        let job = self.data_b();
        assert(vs.take(n) =~= vs);
        lemma_pairs(kept, vs, n);
        self.lemma_world(self.out_vars(filled(self.set_out().vars, kept.len() as int)), None);
        assert forall|j: int| #![trigger job.pairs[j]] 0 <= j < job.pairs.len() implies {
            &&& 0 <= job.pairs[j].0 < job.from.vars.len()
            &&& job.pairs[j].1 == job.offset + j
            &&& job.offset + j < job.out.len()
            &&& job.out[job.offset + j].values == job.var(j).values
            &&& good_name(job.var(j).name)
            &&& job.from.holds(job.var(j), self.w.type_size)
        } by {
            let v = fresh(kept, vs)[j];
            let x = job.pairs[j].0 as int;
            assert(v == vs[x]);
            assert(self.set_out().vars[kept.len() + j] == moved(
                v,
                self.set_b().dims,
                self.set_out().dims,
            ));
            assert(good_name(vs[x].name()));
            assert(self.set_b().holds(vs[x], self.w.type_size));
        }
    }

    /// The copying of the values of part A comes to its variable `j` where the values of all
    /// before it can be counted.
    pub proof fn lemma_data_a_until(self, j: int)
        requires
            self.ready(),
            definable(self.set_a(), self.set_b()),
            numberable(self.set_a(), self.set_b()),
            0 <= j <= self.set_a().vars.len(),
            measurable(self.set_a(), self.set_a().vars.take(j), self.w.type_size),
        ensures
            self.data_a().ready(self.world_data(0)),
            self.pairs_a().len() == self.set_a().vars.len(),
            j < self.pairs_a().len() ==> self.data_a().var(j) == self.set_a().vars[j],
            self.start().reaches(
                self.data_a().at(self.defined(MergeStage::EndDef), self.world_data(0), j),
            ),
    {
        let out = self.set_out().vars;
        let s = self.defined(MergeStage::EndDef);
        let c = running(s, self.world(self.out_vars(shells(out)), Some(self.id_out())));
        let w = self.world_data(0);
        let job = self.data_a();
        self.lemma_vars_b();
        self.lemma_data_a();
        self.lemma_world(self.out_vars(shells(out)), Some(self.id_out()));
        self.lemma_world(self.out_vars(filled(out, 0)), None);
        assert(filled(out, 0) =~= shells(out));
        self.lemma_put(self.out_vars(filled(out, 0)), self.out_vars(filled(out, 0)), None);
        assert(c.step().world.open =~= w.open);
        assert(c.step() =~= job.at(s, w, 0));
        lemma_reaches_self(job.at(s, w, 0));
        lemma_reaches_step(c, job.at(s, w, 0));
        assert forall|i: int| #![trigger job.pairs[i]] 0 <= i < j implies job.from.countable(
            job.var(i),
            w.type_size,
        ) by {
            assert(self.pairs_a()[i] == job.pairs[i]);
            assert(self.set_a().vars.take(j)[i] == self.set_a().vars[i]);
        }
        job.lemma_run(s, w, j);
        if j < self.pairs_a().len() {
            assert(self.pairs_a()[j] == job.pairs[j]);
        }
        lemma_reaches_trans(self.start(), c, job.at(s, w, 0));
        lemma_reaches_trans(self.start(), job.at(s, w, 0), job.at(s, w, j));
    }

    /// The copying of the values of part B comes to its new variable `j` where the values of all
    /// before it can be counted.
    pub proof fn lemma_data_b_until(self, j: int)
        requires
            self.ready(),
            definable(self.set_a(), self.set_b()),
            numberable(self.set_a(), self.set_b()),
            measurable(self.set_a(), self.set_a().vars, self.w.type_size),
            0 <= j <= fresh(self.set_a().vars, self.set_b().vars).len(),
            measurable(
                self.set_b(),
                fresh(self.set_a().vars, self.set_b().vars).take(j),
                self.w.type_size,
            ),
        ensures
            self.data_b().ready(self.world_data(self.set_a().vars.len() as int)),
            self.pairs_b().len() == fresh(self.set_a().vars, self.set_b().vars).len(),
            j < self.pairs_b().len() ==> self.data_b().var(j) == fresh(
                self.set_a().vars,
                self.set_b().vars,
            )[j],
            self.start().reaches(
                self.data_b().at(
                    self.defined(MergeStage::EndDef),
                    self.world_data(self.set_a().vars.len() as int),
                    j,
                ),
            ),
    {
        let out = self.set_out().vars;
        let added = fresh(self.set_a().vars, self.set_b().vars);
        let n = self.set_a().vars.len() as int;
        let s = self.defined(MergeStage::EndDef);
        let before = self.data_a().at(s, self.world_data(0), n);
        let w = self.world_data(n);
        let job = self.data_b();
        assert(self.set_a().vars.take(n) =~= self.set_a().vars);
        self.lemma_data_a_until(n);
        self.lemma_data_b();
        self.lemma_world(self.out_vars(filled(out, 0)), None);
        self.lemma_world(self.out_vars(filled(out, n)), None);
        self.lemma_put(self.out_vars(filled(out, 0)), self.out_vars(filled(out, n)), None);
        self.lemma_put(self.out_vars(filled(out, n)), self.out_vars(filled(out, n)), None);
        assert(before =~= job.at(s, w, 0));
        assert forall|i: int| #![trigger job.pairs[i]] 0 <= i < j implies job.from.countable(
            job.var(i),
            w.type_size,
        ) by {
            assert(self.pairs_b()[i] == job.pairs[i]);
            assert(added.take(j)[i] == added[i]);
        }
        job.lemma_run(s, w, j);
        if j < self.pairs_b().len() {
            assert(self.pairs_b()[j] == job.pairs[j]);
        }
        lemma_reaches_trans(self.start(), job.at(s, w, 0), job.at(s, w, j));
    }

    /// All values are copied.
    proof fn lemma_data(self)
        requires
            self.ready(),
            mergeable(self.set_a(), self.set_b(), self.w.type_size),
            numberable(self.set_a(), self.set_b()),
        ensures
            self.start().reaches(
                running(
                    self.defined(MergeStage::Close(Part::A)),
                    self.world(self.set_out(), None),
                ),
            ),
    {
        let out = self.set_out().vars;
        let added = fresh(self.set_a().vars, self.set_b().vars);
        let na = self.set_a().vars.len() as int;
        let nb = added.len() as int;
        let s = self.defined(MergeStage::EndDef);
        let end = running(
            self.defined(MergeStage::Close(Part::A)),
            self.world(self.set_out(), None),
        );
        assert(added.take(nb) =~= added);
        self.lemma_data_b_until(nb);
        self.lemma_world(self.out_vars(filled(out, na)), None);
        self.lemma_put(self.out_vars(filled(out, na)), self.out_vars(filled(out, na + nb)), None);
        assert(filled(out, na + nb) =~= out);
        assert(self.out_vars(out) =~= self.set_out());
        assert(self.data_b().at(s, self.world_data(na), nb) =~= end);
    }

    /// The bytes that the output is written as.
    pub open spec fn file_out(self) -> Seq<u8> {
        (self.w.image)(self.set_out())
    }

    /// How the merge ends when everything could be copied.
    pub open spec fn outcome(self) -> Result<Seq<u8>, Seq<char>> {
        if self.file_out().len() > 0 {
            Ok(self.file_out())
        } else {
            Err("NetCDF-C returned empty output memory"@)
        }
    }

    /// The merge after its last call.
    pub open spec fn end(self) -> Config {
        Config {
            merge: MergeModel::Finished(self.outcome()),
            world: World {
                open: self.w.open.remove(self.id_a()).remove(self.id_b()).remove(self.id_out()),
                next: self.w.next + 3,
                defining: None,
                ..self.w
            },
        }
    }

    /// The whole merge.
    pub proof fn lemma_merge(self)
        requires
            self.ready(),
            mergeable(self.set_a(), self.set_b(), self.w.type_size),
            numberable(self.set_a(), self.set_b()),
        ensures
            self.start().reaches(self.end()),
            self.start().ends_with(self.outcome()),
    {
        let c1 = running(
            self.defined(MergeStage::Close(Part::A)),
            self.world(self.set_out(), None),
        );
        let c2 = c1.step();
        let c3 = c2.step();
        let c4 = c3.step();
        self.lemma_data();
        self.lemma_world(self.set_out(), None);
        assert(c4.world.open =~= self.end().world.open);
        assert(c4 =~= self.end());
        lemma_reaches_self(c4);
        lemma_reaches_step(c3, c4);
        lemma_reaches_step(c2, c4);
        lemma_reaches_step(c1, c4);
        lemma_reaches_trans(self.start(), c1, c4);
        lemma_reaches_end(self.start(), c4, self.outcome());
    }
}

/// Which variables have which IDs.
proof fn lemma_pairs(kept: Seq<Var>, vs: Seq<Var>, i: int)
    requires
        kept.len() + fresh(kept, vs).len() <= i32::MAX,
        vs.len() <= i32::MAX,
        0 <= i <= vs.len(),
    ensures
        pairs_of(kept, vs, i).len() == fresh(kept, vs.take(i)).len(),
        forall|j: int|
            #![trigger pairs_of(kept, vs, i)[j]]
            0 <= j < pairs_of(kept, vs, i).len() ==> {
                &&& 0 <= pairs_of(kept, vs, i)[j].0 < i
                &&& pairs_of(kept, vs, i)[j].1 == kept.len() + j
                &&& vs[pairs_of(kept, vs, i)[j].0 as int] == fresh(kept, vs.take(i))[j]
            },
    decreases i,
{
    let n = vs.len() as int;
    if i > 0 {
        lemma_pairs(kept, vs, i - 1);
        lemma_fresh_step(kept, vs, i - 1);
        assert(vs.take(n) =~= vs);
        lemma_fresh_prefix(kept, vs, i, n);
        let before = pairs_of(kept, vs, i - 1);
        let now = pairs_of(kept, vs, i);
        if !names(kept).contains(vs[i - 1].name) {
            assert forall|j: int| #![trigger now[j]] 0 <= j < now.len() implies {
                &&& 0 <= now[j].0 < i
                &&& now[j].1 == kept.len() + j
                &&& vs[now[j].0 as int] == fresh(kept, vs.take(i))[j]
            } by {
                if j < before.len() {
                    assert(now[j] == before[j]);
                }
            }
        }
    } else {
        reveal(Seq::filter);
        assert(vs.take(0).len() == 0);
    }
}

} // verus!
