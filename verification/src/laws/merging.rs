//! What merging two files comes to.

use vstd::prelude::*;
use vstd::utf8::*;
use crate::data::too_large_text;
use crate::dimensions::conflict_text;
use crate::laws::datasets::{law_merge_is_associative, law_merged_is_valid};
use crate::merge::{MergeModel, MergeStage};
use crate::model::{
    compatible, conflicts, definable, first_wins, fresh, lemma_fresh_members, measurable, merged,
    mergeable, names, numberable, supported, Dataset, Named, Var,
};
use crate::netcdf::{lemma_ended, lemma_reaches_ends, lemma_run_add, Config, World};
use crate::protocol::{supported_type, Part};
use crate::runs::dims::{dims_at, lemma_dims_conflict};
use crate::runs::whole::Scene;
use crate::variables::unsupported_text;

verus! {

/// The merge of the files `a` and `b`, before its first call, with NetCDF-C in the state `w`.
pub open spec fn merge_of(a: Seq<u8>, b: Seq<u8>, w: World) -> Config {
    Config { merge: MergeModel::start(a, b), world: w }
}

/// Whether a merge of the files `a` and `b` can begin: both hold datasets, NetCDF-C has
/// different IDs for them and for the output, and no strings are left to free.
pub open spec fn can_begin(a: Seq<u8>, b: Seq<u8>, w: World) -> bool {
    &&& (w.files)(a).valid(w.type_size)
    &&& (w.files)(b).valid(w.type_size)
    &&& w.strings.len() == 0
    &&& (w.ids)(w.next) != (w.ids)(w.next + 1)
    &&& (w.ids)(w.next) != (w.ids)(w.next + 2)
    &&& (w.ids)(w.next + 1) != (w.ids)(w.next + 2)
}

/// A merge has one outcome.
pub proof fn law_one_outcome(
    c: Config,
    r1: Result<Seq<u8>, Seq<char>>,
    r2: Result<Seq<u8>, Seq<char>>,
)
    requires
        c.ends_with(r1),
        c.ends_with(r2),
    ensures
        r1 == r2,
{
    let m = choose|m: nat| (#[trigger] c.run(m)).merge == MergeModel::Finished(r1);
    let n = choose|n: nat| (#[trigger] c.run(n)).merge == MergeModel::Finished(r2);
    if m <= n {
        lemma_run_add(c, m, (n - m) as nat);
        lemma_ended(c.run(m), (n - m) as nat);
    } else {
        lemma_run_add(c, n, (m - n) as nat);
        lemma_ended(c.run(n), (m - n) as nat);
    }
}

/// Merging two files gives the file of the merged dataset: everything of part A, and of part B
/// the dimensions, global attributes and variables, with their attributes and values, whose names
/// part A does not have.
pub proof fn law_merge(a: Seq<u8>, b: Seq<u8>, w: World)
    requires
        can_begin(a, b, w),
        mergeable((w.files)(a), (w.files)(b), w.type_size),
        numberable((w.files)(a), (w.files)(b)),
        (w.image)(merged((w.files)(a), (w.files)(b))).len() > 0,
    ensures
        merge_of(a, b, w).ends_with(Ok((w.image)(merged((w.files)(a), (w.files)(b))))),
{
    Scene { a, b, w }.lemma_merge();
}

/// A merge that succeeds leaves nothing behind in NetCDF-C but used-up IDs: the datasets that are
/// open are those that were open before, where the new IDs were free, and no strings are left to
/// free.
pub proof fn law_nothing_stays_open(a: Seq<u8>, b: Seq<u8>, w: World)
    requires
        can_begin(a, b, w),
        mergeable((w.files)(a), (w.files)(b), w.type_size),
        numberable((w.files)(a), (w.files)(b)),
        (w.image)(merged((w.files)(a), (w.files)(b))).len() > 0,
        !w.open.contains_key((w.ids)(w.next)),
        !w.open.contains_key((w.ids)(w.next + 1)),
        !w.open.contains_key((w.ids)(w.next + 2)),
    ensures
        merge_of(a, b, w).ends_in(
            Ok((w.image)(merged((w.files)(a), (w.files)(b)))),
            (World { next: w.next + 3, defining: None, ..w }),
        ),
{
    let scene = Scene { a, b, w };
    scene.lemma_merge();
    assert(scene.end().world.open =~= w.open);
    assert(scene.end().world =~= World { next: w.next + 3, defining: None, ..w });
}

/// Where the merged dataset would be written as no bytes at all, the merge fails.
pub proof fn law_empty_output(a: Seq<u8>, b: Seq<u8>, w: World)
    requires
        can_begin(a, b, w),
        mergeable((w.files)(a), (w.files)(b), w.type_size),
        numberable((w.files)(a), (w.files)(b)),
        (w.image)(merged((w.files)(a), (w.files)(b))).len() == 0,
    ensures
        merge_of(a, b, w).ends_with(Err("NetCDF-C returned empty output memory"@)),
{
    Scene { a, b, w }.lemma_merge();
}

/// A dimension of part B that has the name of one of part A and another length makes the merge
/// fail, and the first such dimension is the one that the error names.
pub proof fn law_dimension_conflict(a: Seq<u8>, b: Seq<u8>, w: World, j: int, k: int)
    requires
        can_begin(a, b, w),
        first_wins((w.files)(a).dims, (w.files)(b).dims).len() <= i32::MAX,
        0 <= j < (w.files)(b).dims.len(),
        0 <= k < (w.files)(a).dims.len(),
        (w.files)(a).dims[k].name == (w.files)(b).dims[j].name,
        (w.files)(a).dims[k].len != (w.files)(b).dims[j].len,
        compatible((w.files)(a).dims, (w.files)(b).dims.take(j)),
    ensures
        merge_of(a, b, w).ends_with(
            Err(
                conflict_text(
                    decode_utf8((w.files)(b).dims[j].name),
                    (w.files)(a).dims[k].len,
                    Part::B,
                    (w.files)(b).dims[j].len,
                ),
            ),
        ),
{
    let scene = Scene { a, b, w };
    let kept = scene.set_a().dims;
    let ds = scene.set_b().dims;
    let before = scene.world(scene.out_dims(kept), Some(scene.id_out()));
    let c = dims_at(
        scene.dims_b(),
        before,
        Part::B,
        scene.id_b(),
        scene.id_out(),
        kept,
        ds,
        j,
    );
    let e = conflict_text(decode_utf8(ds[j].name), kept[k].len, Part::B, ds[j].len);
    scene.lemma_dims_b_until(j);
    scene.lemma_world(scene.out_dims(kept), Some(scene.id_out()));
    lemma_dims_conflict(
        scene.dims_b(),
        before,
        Part::B,
        scene.id_b(),
        scene.id_out(),
        kept,
        ds,
        j,
        k,
    );
    lemma_reaches_ends(scene.start(), c, Err(e));
}

/// A variable of part A of a type that is not merged makes the merge fail, and the first such
/// variable is the one that the error names.
pub proof fn law_unsupported_type_in_part_a(a: Seq<u8>, b: Seq<u8>, w: World, j: int)
    requires
        can_begin(a, b, w),
        compatible((w.files)(a).dims, (w.files)(b).dims),
        first_wins((w.files)(a).dims, (w.files)(b).dims).len() <= i32::MAX,
        0 <= j < (w.files)(a).vars.len(),
        !supported_type((w.files)(a).vars[j].xtype),
        supported((w.files)(a).vars.take(j)),
    ensures
        merge_of(a, b, w).ends_with(
            Err(
                unsupported_text(
                    decode_utf8((w.files)(a).vars[j].name),
                    Part::A,
                    (w.files)(a).vars[j].xtype,
                ),
            ),
        ),
{
    let scene = Scene { a, b, w };
    let v = scene.set_a().vars[j];
    let e = unsupported_text(decode_utf8(v.name), Part::A, v.xtype);
    scene.lemma_vars_a_until(j);
    scene.job_a().lemma_unsupported(scene.vars_a(), scene.world_vars_a(), j);
    lemma_reaches_ends(
        scene.start(),
        scene.job_a().at(scene.vars_a(), scene.world_vars_a(), j),
        Err(e),
    );
}

/// A variable of part B of a type that is not merged makes the merge fail, unless part A has a
/// variable of its name, and the first such variable is the one that the error names.
pub proof fn law_unsupported_type_in_part_b(a: Seq<u8>, b: Seq<u8>, w: World, j: int)
    requires
        can_begin(a, b, w),
        compatible((w.files)(a).dims, (w.files)(b).dims),
        numberable((w.files)(a), (w.files)(b)),
        supported((w.files)(a).vars),
        0 <= j < (w.files)(b).vars.len(),
        !names((w.files)(a).vars).contains((w.files)(b).vars[j].name),
        !supported_type((w.files)(b).vars[j].xtype),
        forall|i: int|
            0 <= i < j ==> names((w.files)(a).vars).contains((#[trigger] (w.files)(b).vars[i]).name)
                || supported_type((w.files)(b).vars[i].xtype),
    ensures
        merge_of(a, b, w).ends_with(
            Err(
                unsupported_text(
                    decode_utf8((w.files)(b).vars[j].name),
                    Part::B,
                    (w.files)(b).vars[j].xtype,
                ),
            ),
        ),
{
    let scene = Scene { a, b, w };
    let v = scene.set_b().vars[j];
    let e = unsupported_text(decode_utf8(v.name), Part::B, v.xtype);
    scene.lemma_vars_b_until(j);
    scene.job_b().lemma_unsupported(scene.vars_b(), scene.world_vars_b(), j);
    lemma_reaches_ends(
        scene.start(),
        scene.job_b().at(scene.vars_b(), scene.world_vars_b(), j),
        Err(e),
    );
}

/// A variable of part A whose values cannot be counted makes the merge fail, and the first such
/// variable is the one that the error names.
pub proof fn law_too_large_in_part_a(a: Seq<u8>, b: Seq<u8>, w: World, j: int)
    requires
        can_begin(a, b, w),
        definable((w.files)(a), (w.files)(b)),
        numberable((w.files)(a), (w.files)(b)),
        0 <= j < (w.files)(a).vars.len(),
        !(w.files)(a).countable((w.files)(a).vars[j], w.type_size),
        measurable((w.files)(a), (w.files)(a).vars.take(j), w.type_size),
    ensures
        merge_of(a, b, w).ends_with(
            Err(too_large_text(decode_utf8((w.files)(a).vars[j].name))),
        ),
{
    let scene = Scene { a, b, w };
    let s = scene.defined(MergeStage::EndDef);
    let e = too_large_text(decode_utf8(scene.set_a().vars[j].name));
    scene.lemma_data_a_until(j);
    scene.data_a().lemma_too_large(s, scene.world_data(0), j);
    lemma_reaches_ends(scene.start(), scene.data_a().at(s, scene.world_data(0), j), Err(e));
}

/// A variable that is new in part B and whose values cannot be counted makes the merge fail, and
/// the first such variable is the one that the error names.
pub proof fn law_too_large_in_part_b(a: Seq<u8>, b: Seq<u8>, w: World, j: int)
    requires
        can_begin(a, b, w),
        definable((w.files)(a), (w.files)(b)),
        numberable((w.files)(a), (w.files)(b)),
        measurable((w.files)(a), (w.files)(a).vars, w.type_size),
        0 <= j < fresh((w.files)(a).vars, (w.files)(b).vars).len(),
        !(w.files)(b).countable(fresh((w.files)(a).vars, (w.files)(b).vars)[j], w.type_size),
        measurable(
            (w.files)(b),
            fresh((w.files)(a).vars, (w.files)(b).vars).take(j),
            w.type_size,
        ),
    ensures
        merge_of(a, b, w).ends_with(
            Err(too_large_text(decode_utf8(fresh((w.files)(a).vars, (w.files)(b).vars)[j].name))),
        ),
{
    let scene = Scene { a, b, w };
    let s = scene.defined(MergeStage::EndDef);
    let before = scene.world_data(scene.set_a().vars.len() as int);
    let e = too_large_text(decode_utf8(fresh(scene.set_a().vars, scene.set_b().vars)[j].name));
    scene.lemma_data_b_until(j);
    scene.data_b().lemma_too_large(s, before, j);
    lemma_reaches_ends(scene.start(), scene.data_b().at(s, before, j), Err(e));
}

/// The first number below `n` that `p` does not hold of, or `n` where there is none.
proof fn lemma_first(p: spec_fn(int) -> bool, n: int) -> (j: int)
    requires
        0 <= n,
    ensures
        0 <= j <= n,
        forall|i: int| 0 <= i < j ==> #[trigger] p(i),
        j < n ==> !p(j),
    decreases n,
{
    if n == 0 {
        0
    } else {
        let j = lemma_first(p, n - 1);
        if j == n - 1 && p(j) {
            n
        } else {
            j
        }
    }
}

/// Two datasets that cannot be merged make the merge fail.
proof fn lemma_fails(a: Seq<u8>, b: Seq<u8>, w: World) -> (e: Seq<char>)
    requires
        can_begin(a, b, w),
        numberable((w.files)(a), (w.files)(b)),
        !mergeable((w.files)(a), (w.files)(b), w.type_size),
    ensures
        merge_of(a, b, w).ends_with(Err(e)),
{
    let x = (w.files)(a);
    let y = (w.files)(b);
    let added = fresh(x.vars, y.vars);
    if !compatible(x.dims, y.dims) {
        let p = |i: int| !conflicts(x.dims, y.dims[i]);
        let j = lemma_first(p, y.dims.len() as int);
        assert forall|i: int| 0 <= i < y.dims.take(j).len() implies !conflicts(
            x.dims,
            #[trigger] y.dims.take(j)[i],
        ) by {
            assert(p(i));
        }
        if j == y.dims.len() {
            assert(y.dims.take(j) =~= y.dims);
        }
        assert(!p(j));
        let k = choose|k: int|
            0 <= k < x.dims.len() && #[trigger] x.dims[k].name == y.dims[j].name && x.dims[k].len
                != y.dims[j].len;
        law_dimension_conflict(a, b, w, j, k);
        conflict_text(decode_utf8(y.dims[j].name), x.dims[k].len, Part::B, y.dims[j].len)
    } else if !supported(x.vars) {
        let p = |i: int| supported_type(x.vars[i].xtype);
        let j = lemma_first(p, x.vars.len() as int);
        assert forall|i: int| 0 <= i < j implies supported_type(
            (#[trigger] x.vars.take(j)[i]).xtype,
        ) by {
            assert(p(i));
        }
        if j == x.vars.len() {
            assert(x.vars.take(j) =~= x.vars);
        }
        assert(!p(j));
        law_unsupported_type_in_part_a(a, b, w, j);
        unsupported_text(decode_utf8(x.vars[j].name), Part::A, x.vars[j].xtype)
    } else if !supported(added) {
        let p = |i: int|
            names(x.vars).contains(y.vars[i].name) || supported_type(y.vars[i].xtype);
        let j = lemma_first(p, y.vars.len() as int);
        assert forall|i: int| 0 <= i < j implies names(x.vars).contains(
            (#[trigger] y.vars[i]).name,
        ) || supported_type(y.vars[i].xtype) by {
            assert(p(i));
        }
        lemma_fresh_members(x.vars, y.vars);
        if j == y.vars.len() {
            assert forall|k: int| 0 <= k < added.len() implies supported_type(
                (#[trigger] added[k]).xtype,
            ) by {
                assert(y.vars.contains(added[k]));
                let i = choose|i: int| 0 <= i < y.vars.len() && y.vars[i] == added[k];
                assert(!names(x.vars).contains(added[k].name()));
                assert(p(i));
            }
        }
        assert(!p(j));
        law_unsupported_type_in_part_b(a, b, w, j);
        unsupported_text(decode_utf8(y.vars[j].name), Part::B, y.vars[j].xtype)
    } else if !measurable(x, x.vars, w.type_size) {
        let p = |i: int| x.countable(x.vars[i], w.type_size);
        let j = lemma_first(p, x.vars.len() as int);
        assert forall|i: int| 0 <= i < j implies x.countable(
            #[trigger] x.vars.take(j)[i],
            w.type_size,
        ) by {
            assert(p(i));
        }
        if j == x.vars.len() {
            assert(x.vars.take(j) =~= x.vars);
        }
        assert(!p(j));
        law_too_large_in_part_a(a, b, w, j);
        too_large_text(decode_utf8(x.vars[j].name))
    } else {
        let p = |i: int| y.countable(added[i], w.type_size);
        let j = lemma_first(p, added.len() as int);
        assert forall|i: int| 0 <= i < j implies y.countable(
            #[trigger] added.take(j)[i],
            w.type_size,
        ) by {
            assert(p(i));
        }
        if j == added.len() {
            assert(added.take(j) =~= added);
        }
        assert(!p(j));
        law_too_large_in_part_b(a, b, w, j);
        too_large_text(decode_utf8(added[j].name))
    }
}

/// A merge succeeds exactly where the two datasets can be merged: their dimensions are
/// compatible, and the variables of the merged dataset have types that are merged and values that
/// can be counted. The outcome is then the file of the merged dataset.
pub proof fn law_success_where_mergeable(a: Seq<u8>, b: Seq<u8>, w: World, out: Seq<u8>)
    requires
        can_begin(a, b, w),
        numberable((w.files)(a), (w.files)(b)),
    ensures
        merge_of(a, b, w).ends_with(Ok(out)) <==> {
            &&& mergeable((w.files)(a), (w.files)(b), w.type_size)
            &&& out == (w.image)(merged((w.files)(a), (w.files)(b)))
            &&& out.len() > 0
        },
{
    let c = merge_of(a, b, w);
    let file = (w.image)(merged((w.files)(a), (w.files)(b)));
    if !mergeable((w.files)(a), (w.files)(b), w.type_size) {
        let e = lemma_fails(a, b, w);
        if c.ends_with(Ok(out)) {
            law_one_outcome(c, Ok(out), Err(e));
        }
    } else if file.len() > 0 {
        law_merge(a, b, w);
        if c.ends_with(Ok(out)) {
            law_one_outcome(c, Ok(out), Ok(file));
        }
    } else {
        law_empty_output(a, b, w);
        if c.ends_with(Ok(out)) {
            law_one_outcome(c, Ok(out), Err("NetCDF-C returned empty output memory"@));
        }
    }
}

/// Every merge of two datasets ends with an outcome.
pub proof fn law_some_outcome(a: Seq<u8>, b: Seq<u8>, w: World)
    requires
        can_begin(a, b, w),
        numberable((w.files)(a), (w.files)(b)),
    ensures
        exists|r: Result<Seq<u8>, Seq<char>>| merge_of(a, b, w).ends_with(r),
{
    if mergeable((w.files)(a), (w.files)(b), w.type_size) {
        Scene { a, b, w }.lemma_merge();
    } else {
        let e = lemma_fails(a, b, w);
    }
}

/// Variables of part B whose names part A has do not matter: where two files have the same
/// dimensions, global attributes and new variables, merging them into part A succeeds for both
/// with the same file, or fails for both.
pub proof fn law_duplicates_do_not_matter(a: Seq<u8>, b1: Seq<u8>, b2: Seq<u8>, w: World)
    requires
        can_begin(a, b1, w),
        can_begin(a, b2, w),
        numberable((w.files)(a), (w.files)(b1)),
        (w.files)(b1).dims == (w.files)(b2).dims,
        (w.files)(b1).atts == (w.files)(b2).atts,
        fresh((w.files)(a).vars, (w.files)(b1).vars) == fresh(
            (w.files)(a).vars,
            (w.files)(b2).vars,
        ),
    ensures
        forall|out: Seq<u8>| #[trigger]
            merge_of(a, b1, w).ends_with(Ok(out)) <==> merge_of(a, b2, w).ends_with(Ok(out)),
        (exists|e: Seq<char>| merge_of(a, b1, w).ends_with(Err(e))) <==> (exists|e: Seq<char>|
            merge_of(a, b2, w).ends_with(Err(e))),
{
    let x = (w.files)(a);
    let y1 = (w.files)(b1);
    let y2 = (w.files)(b2);
    let added = fresh(x.vars, y1.vars);
    assert(merged(x, y1) == merged(x, y2));
    assert forall|v: Var| y1.countable(v, w.type_size) == y2.countable(v, w.type_size) by {
        lemma_same_countable(y1, y2, v, w.type_size);
    }
    assert(measurable(y1, added, w.type_size) == measurable(y2, added, w.type_size));
    assert(mergeable(x, y1, w.type_size) == mergeable(x, y2, w.type_size));
    assert forall|out: Seq<u8>| #[trigger]
        merge_of(a, b1, w).ends_with(Ok(out)) <==> merge_of(a, b2, w).ends_with(Ok(out)) by {
        law_success_where_mergeable(a, b1, w, out);
        law_success_where_mergeable(a, b2, w, out);
    }
    if mergeable(x, y1, w.type_size) {
        let r = Scene { a, b: b1, w }.outcome();
        Scene { a, b: b1, w }.lemma_merge();
        Scene { a, b: b2, w }.lemma_merge();
        assert forall|e: Seq<char>| merge_of(a, b1, w).ends_with(Err(e)) implies merge_of(
            a,
            b2,
            w,
        ).ends_with(Err(e)) by {
            law_one_outcome(merge_of(a, b1, w), Err(e), r);
        }
        assert forall|e: Seq<char>| merge_of(a, b2, w).ends_with(Err(e)) implies merge_of(
            a,
            b1,
            w,
        ).ends_with(Err(e)) by {
            law_one_outcome(merge_of(a, b2, w), Err(e), r);
        }
    } else {
        let e1 = lemma_fails(a, b1, w);
        let e2 = lemma_fails(a, b2, w);
        assert(merge_of(a, b1, w).ends_with(Err(e1)));
        assert(merge_of(a, b2, w).ends_with(Err(e2)));
    }
}

/// Whether a variable can be counted depends on the dimensions of its dataset alone.
proof fn lemma_same_countable(x: Dataset, y: Dataset, v: Var, type_size: spec_fn(i32) -> usize)
    requires
        x.dims == y.dims,
    ensures
        x.countable(v, type_size) == y.countable(v, type_size),
{
    assert forall|n: int| #[trigger] x.count(v, n) == y.count(v, n) by {
        lemma_same_dims_count(x, y, v, n);
    }
    assert forall|n: int| #[trigger] y.count(v, n) == x.count(v, n) by {
        lemma_same_dims_count(x, y, v, n);
    }
}

/// The number of elements depends on the dimensions of a dataset alone.
proof fn lemma_same_dims_count(x: Dataset, y: Dataset, v: Var, n: int)
    requires
        x.dims == y.dims,
    ensures
        x.count(v, n) == y.count(v, n),
    decreases n,
{
    if n > 0 {
        lemma_same_dims_count(x, y, v, n - 1);
    }
}

/// Whether NetCDF-C reads back what it writes: every dataset is written as a file that is not
/// empty and holds that dataset.
pub open spec fn reads_back(w: World) -> bool {
    forall|d: Dataset|
        d.valid(w.type_size) ==> (#[trigger] (w.image)(d)).len() > 0 && (w.files)((w.image)(d))
            == d
}

/// Whether what merging `a` and `b` gives can be numbered throughout, its global attributes too.
pub open spec fn storable(a: Dataset, b: Dataset) -> bool {
    numberable(a, b) && first_wins(a.atts, b.atts).len() <= i32::MAX
}

/// What comes out of a merge that succeeds holds the merged dataset, which can be merged again.
proof fn lemma_merged_file(a: Seq<u8>, b: Seq<u8>, w: World, out: Seq<u8>)
    requires
        can_begin(a, b, w),
        reads_back(w),
        storable((w.files)(a), (w.files)(b)),
        merge_of(a, b, w).ends_with(Ok(out)),
    ensures
        out == (w.image)(merged((w.files)(a), (w.files)(b))),
        (w.files)(out) == merged((w.files)(a), (w.files)(b)),
        (w.files)(out).valid(w.type_size),
{
    law_success_where_mergeable(a, b, w, out);
    law_merged_is_valid((w.files)(a), (w.files)(b), w.type_size);
}

/// Merging files is associative: where all four merges succeed, merging the first two of three
/// files and then the third gives the same file as merging the first with the last two.
pub proof fn law_merging_files_is_associative(
    a: Seq<u8>,
    b: Seq<u8>,
    c: Seq<u8>,
    w: World,
    ab: Seq<u8>,
    bc: Seq<u8>,
    ab_c: Seq<u8>,
    a_bc: Seq<u8>,
)
    requires
        can_begin(a, b, w),
        can_begin(b, c, w),
        reads_back(w),
        storable((w.files)(a), (w.files)(b)),
        storable((w.files)(b), (w.files)(c)),
        storable((w.files)(ab), (w.files)(c)),
        storable((w.files)(a), (w.files)(bc)),
        merge_of(a, b, w).ends_with(Ok(ab)),
        merge_of(b, c, w).ends_with(Ok(bc)),
        merge_of(ab, c, w).ends_with(Ok(ab_c)),
        merge_of(a, bc, w).ends_with(Ok(a_bc)),
    ensures
        ab_c == a_bc,
        (w.files)(ab_c) == merged(merged((w.files)(a), (w.files)(b)), (w.files)(c)),
        (w.files)(a_bc) == merged((w.files)(a), merged((w.files)(b), (w.files)(c))),
{
    lemma_merged_file(a, b, w, ab);
    lemma_merged_file(b, c, w, bc);
    lemma_merged_file(ab, c, w, ab_c);
    lemma_merged_file(a, bc, w, a_bc);
    law_merge_is_associative((w.files)(a), (w.files)(b), (w.files)(c), w.type_size);
}

} // verus!
