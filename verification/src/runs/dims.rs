//! The copying of dimensions.

use vstd::prelude::*;
use vstd::utf8::*;
use crate::dimensions::{conflict_text, DimStage, DimState, OutDims};
use crate::merge::{MergeStage, MergeState};
use crate::model::{
    conflicts, dim_at, first_wins, fresh, lemma_first_wins_named, lemma_fresh_prefix,
    lemma_fresh_step, lemma_nothing_fresh, lemma_seen, names, well_named, Dataset, Dim, Named,
};
use crate::netcdf::{
    lemma_reaches_end, lemma_reaches_self, lemma_reaches_step, lemma_reaches_trans, running, Config,
    World,
};
use crate::protocol::Part;
use crate::runs::{good_name, lemma_name_round_trip, lemma_same_text};

verus! {

/// The output dimensions `dims`, as a merge keeps them.
pub open spec fn dim_table(dims: Seq<Dim>) -> OutDims
    decreases dims.len(),
{
    if dims.len() == 0 {
        Map::empty()
    } else {
        dim_table(dims.drop_last()).insert(
            decode_utf8(dims.last().name),
            (dims.last().len, (dims.len() - 1) as i32),
        )
    }
}

/// The table has each dimension under its name, with its length and position.
pub proof fn lemma_dim_table(dims: Seq<Dim>, n: Seq<u8>)
    requires
        names(dims).no_duplicates(),
        forall|k: int| 0 <= k < dims.len() ==> good_name(#[trigger] dims[k].name),
        good_name(n),
    ensures
        dim_table(dims).contains_key(decode_utf8(n)) <==> names(dims).contains(n),
        forall|k: int|
            0 <= k < dims.len() && #[trigger] dims[k].name == n ==> dim_table(dims)[decode_utf8(n)]
                == (dims[k].len, k as i32),
    decreases dims.len(),
{
    if dims.len() > 0 {
        let rest = dims.drop_last();
        assert forall|i: int, j: int|
            0 <= i < names(rest).len() && 0 <= j < names(rest).len() && i != j implies names(
            rest,
        )[i] != names(rest)[j] by {
            assert(names(rest)[i] == names(dims)[i]);
            assert(names(rest)[j] == names(dims)[j]);
        }
        lemma_dim_table(rest, n);
        lemma_same_text(dims.last().name, n);
        if names(rest).contains(n) {
            let k = choose|k: int| 0 <= k < names(rest).len() && names(rest)[k] == n;
            assert(names(dims)[k] == n);
        }
        if names(dims).contains(n) {
            let k = choose|k: int| 0 <= k < names(dims).len() && names(dims)[k] == n;
            if k < rest.len() {
                assert(names(rest)[k] == n);
            }
        }
        if dims.last().name == n {
            assert(names(dims)[dims.len() - 1] == n);
        }
        assert forall|k: int| 0 <= k < dims.len() && #[trigger] dims[k].name == n implies dim_table(
            dims,
        )[decode_utf8(n)] == (dims[k].len, k as i32) by {
            assert(names(dims)[k] == n);
            if k < dims.len() - 1 {
                assert(rest[k].name == n);
                assert(names(dims)[dims.len() - 1] != n);
            }
        }
    }
}

/// A dimension is where it is found by its name.
pub proof fn lemma_dim_at(dims: Seq<Dim>, k: int)
    requires
        names(dims).no_duplicates(),
        0 <= k < dims.len(),
    ensures
        dim_at(dims, dims[k].name) == k,
{
    let f = dim_at(dims, dims[k].name);
    assert(dims[f].name == dims[k].name);
    assert(names(dims)[f] == names(dims)[k]);
}

/// The copying of the dimensions `ds` after the first `i` of them, where the output had the
/// dimensions `kept` before. `s` and `w` say how everything else stands.
pub open spec fn dims_at(
    s: MergeState,
    w: World,
    part: Part,
    src: i32,
    dst: i32,
    kept: Seq<Dim>,
    ds: Seq<Dim>,
    i: int,
) -> Config {
    let so_far = first_wins(kept, ds.take(i));
    Config {
        merge: MergeState { out_dims: dim_table(so_far), ..s }.after_dims(
            part,
            DimState {
                part,
                src,
                dst,
                dim_map: dim_map(kept, ds).take(i),
                stage: DimStage::Count,
            }.at_dim(ds.len() as i32, i),
        ),
        world: w.put(dst, Dataset { dims: so_far, ..w.open[dst] }),
    }
}

/// The output dimension of each of `ds`, where the output had `kept` before.
pub open spec fn dim_map(kept: Seq<Dim>, ds: Seq<Dim>) -> Seq<i32> {
    Seq::new(ds.len(), |k: int| dim_at(first_wins(kept, ds), ds[k].name) as i32)
}

/// Whether the dimensions `ds` of the dataset `src` can be copied to `dst`.
pub open spec fn dims_ready(w: World, src: i32, dst: i32, kept: Seq<Dim>, ds: Seq<Dim>) -> bool {
    &&& w.open.contains_key(src)
    &&& w.open.contains_key(dst)
    &&& src != dst
    &&& w.open[src].dims == ds
    &&& w.defining == Some(dst)
    &&& well_named(kept)
    &&& well_named(ds)
    &&& first_wins(kept, ds).len() <= i32::MAX
}

/// What is kept so far is the beginning of what is kept in the end.
proof fn lemma_so_far(kept: Seq<Dim>, ds: Seq<Dim>, i: int)
    requires
        0 <= i <= ds.len(),
    ensures
        first_wins(kept, ds.take(i)).len() <= first_wins(kept, ds).len(),
        forall|k: int|
            0 <= k < first_wins(kept, ds.take(i)).len() ==> #[trigger] first_wins(
                kept,
                ds.take(i),
            )[k] == first_wins(kept, ds)[k],
{
    assert(ds.take(ds.len() as int) =~= ds);
    lemma_fresh_prefix(kept, ds, i, ds.len() as int);
    let short = fresh(kept, ds.take(i));
    assert forall|k: int| 0 <= k < first_wins(kept, ds.take(i)).len() implies #[trigger] first_wins(
        kept,
        ds.take(i),
    )[k] == first_wins(kept, ds)[k] by {
        if k >= kept.len() {
            assert(fresh(kept, ds).take(short.len() as int)[k - kept.len()] == short[k
                - kept.len()]);
        }
    }
}

/// One dimension that does not conflict is copied.
pub proof fn lemma_dims_step(
    s: MergeState,
    w: World,
    part: Part,
    src: i32,
    dst: i32,
    kept: Seq<Dim>,
    ds: Seq<Dim>,
    i: int,
)
    requires
        dims_ready(w, src, dst, kept, ds),
        0 <= i < ds.len(),
        !conflicts(kept, ds[i]),
    ensures
        dims_at(s, w, part, src, dst, kept, ds, i).reaches(
            dims_at(s, w, part, src, dst, kept, ds, i + 1),
        ),
{
    let c = dims_at(s, w, part, src, dst, kept, ds, i);
    let goal = dims_at(s, w, part, src, dst, kept, ds, i + 1);
    let so_far = first_wins(kept, ds.take(i));
    let all = first_wins(kept, ds);
    let n = ds[i].name;
    assert(good_name(ds[i].name()));
    lemma_name_round_trip(n);
    lemma_first_wins_named(kept, ds, i);
    lemma_first_wins_named(kept, ds, ds.len() as int);
    assert(ds.take(ds.len() as int) =~= ds);
    lemma_seen(kept, ds, i);
    lemma_fresh_step(kept, ds, i);
    lemma_so_far(kept, ds, i);
    lemma_so_far(kept, ds, i + 1);
    assert forall|k: int| 0 <= k < so_far.len() implies good_name(#[trigger] so_far[k].name) by {
        assert(good_name(so_far[k].name()));
    }
    lemma_dim_table(so_far, n);
    if names(kept).contains(n) {
        let k = choose|k: int| 0 <= k < names(kept).len() && names(kept)[k] == n;
        assert(so_far[k] == kept[k]);
        assert(so_far[k].name == n);
        assert(kept[k].name == n);
        assert(kept[k].len == ds[i].len);
        assert(all[k] == so_far[k]);
        lemma_dim_at(all, k);
        assert(first_wins(kept, ds.take(i + 1)) =~= so_far);
        assert(dim_map(kept, ds).take(i + 1) =~= dim_map(kept, ds).take(i).push(k as i32));
        assert(c.step() =~= goal);
        lemma_reaches_self(goal);
        lemma_reaches_step(c, goal);
    } else {
        let more = first_wins(kept, ds.take(i + 1));
        assert(more =~= so_far.push(ds[i]));
        assert(more.drop_last() =~= so_far);
        assert(all[so_far.len() as int] == more[so_far.len() as int]);
        lemma_dim_at(all, so_far.len() as int);
        assert(dim_map(kept, ds).take(i + 1) =~= dim_map(kept, ds).take(i).push(
            so_far.len() as i32,
        ));
        let d = c.step();
        assert(d.world =~= c.world);
        assert(d.step().world.open =~= goal.world.open);
        assert(d.step().world =~= goal.world);
        assert(d.step() =~= goal);
        lemma_reaches_self(goal);
        lemma_reaches_step(d, goal);
        lemma_reaches_step(c, goal);
    }
}

/// The first `j` dimensions are copied where none of them conflicts.
pub proof fn lemma_dims_run(
    s: MergeState,
    w: World,
    part: Part,
    src: i32,
    dst: i32,
    kept: Seq<Dim>,
    ds: Seq<Dim>,
    j: int,
)
    requires
        dims_ready(w, src, dst, kept, ds),
        0 <= j <= ds.len(),
        forall|i: int| 0 <= i < j ==> !conflicts(kept, #[trigger] ds[i]),
    ensures
        dims_at(s, w, part, src, dst, kept, ds, 0).reaches(
            dims_at(s, w, part, src, dst, kept, ds, j),
        ),
    decreases j,
{
    let start = dims_at(s, w, part, src, dst, kept, ds, 0);
    if j == 0 {
        lemma_reaches_self(start);
    } else {
        lemma_dims_run(s, w, part, src, dst, kept, ds, j - 1);
        lemma_dims_step(s, w, part, src, dst, kept, ds, j - 1);
        lemma_reaches_trans(
            start,
            dims_at(s, w, part, src, dst, kept, ds, j - 1),
            dims_at(s, w, part, src, dst, kept, ds, j),
        );
    }
}

/// The copying of dimensions as it begins leads to the first of them.
pub proof fn lemma_dims_begin(
    s: MergeState,
    w: World,
    part: Part,
    src: i32,
    dst: i32,
    kept: Seq<Dim>,
    ds: Seq<Dim>,
)
    requires
        dims_ready(w, src, dst, kept, ds),
        s.stage == MergeStage::Dims(DimState::start(part, src, dst)),
        s.out_dims == dim_table(kept),
        w.open[dst].dims == kept,
    ensures
        running(s, w).reaches(dims_at(s, w, part, src, dst, kept, ds, 0)),
{
    let c = running(s, w);
    let goal = dims_at(s, w, part, src, dst, kept, ds, 0);
    lemma_nothing_fresh(kept, ds);
    assert(goal.world.open =~= w.open);
    assert(dim_map(kept, ds).take(0) =~= Seq::empty());
    assert(c.step() =~= goal);
    lemma_reaches_self(goal);
    lemma_reaches_step(c, goal);
}

/// A dimension that conflicts ends the merge.
pub proof fn lemma_dims_conflict(
    s: MergeState,
    w: World,
    part: Part,
    src: i32,
    dst: i32,
    kept: Seq<Dim>,
    ds: Seq<Dim>,
    j: int,
    k: int,
)
    requires
        dims_ready(w, src, dst, kept, ds),
        0 <= j < ds.len(),
        0 <= k < kept.len(),
        kept[k].name == ds[j].name,
        kept[k].len != ds[j].len,
    ensures
        dims_at(s, w, part, src, dst, kept, ds, j).ends_with(
            Err(conflict_text(decode_utf8(ds[j].name), kept[k].len, part, ds[j].len)),
        ),
{
    let c = dims_at(s, w, part, src, dst, kept, ds, j);
    let so_far = first_wins(kept, ds.take(j));
    let n = ds[j].name;
    assert(good_name(ds[j].name()));
    lemma_name_round_trip(n);
    lemma_first_wins_named(kept, ds, j);
    assert forall|i: int| 0 <= i < so_far.len() implies good_name(#[trigger] so_far[i].name) by {
        assert(good_name(so_far[i].name()));
    }
    lemma_dim_table(so_far, n);
    assert(so_far[k] == kept[k]);
    assert(names(so_far)[k] == n);
    let d = c.step();
    lemma_reaches_self(d);
    lemma_reaches_step(c, d);
    lemma_reaches_end(
        c,
        d,
        Err(conflict_text(decode_utf8(n), kept[k].len, part, ds[j].len)),
    );
}

} // verus!
