//! What holds of merged datasets.

use vstd::prelude::*;
use vstd::utf8::*;
use crate::model::{
    all_moved, compatible, conflicts, dim_at, first_wins, fresh, lemma_first_wins_named,
    lemma_fresh_members, lemma_fresh_step, lemma_nothing_fresh, lemma_seen, merged, moved, names,
    unlike, well_named, Att, Dataset, Dim, Named, Var,
};
use crate::runs::dims::lemma_dim_at;

verus! {

/// Everything of part A is in the merged dataset, as it was and before anything else.
pub proof fn law_part_a_is_kept(a: Dataset, b: Dataset)
    ensures
        merged(a, b).dims.take(a.dims.len() as int) == a.dims,
        merged(a, b).atts.take(a.atts.len() as int) == a.atts,
        merged(a, b).vars.take(a.vars.len() as int) == a.vars,
{
    assert(merged(a, b).dims.take(a.dims.len() as int) =~= a.dims);
    assert(merged(a, b).atts.take(a.atts.len() as int) =~= a.atts);
    assert(merged(a, b).vars.take(a.vars.len() as int) =~= a.vars);
}

/// What comes after the things of part A are exactly those of part B whose names part A does not
/// have, in their order.
pub proof fn law_part_b_adds_what_is_new(a: Dataset, b: Dataset)
    ensures
        merged(a, b).dims.skip(a.dims.len() as int) == b.dims.filter(
            |d: Dim| !names(a.dims).contains(d.name),
        ),
        merged(a, b).atts.skip(a.atts.len() as int) == b.atts.filter(
            |t: Att| !names(a.atts).contains(t.name),
        ),
        merged(a, b).vars.skip(a.vars.len() as int) == all_moved(
            b.vars.filter(|v: Var| !names(a.vars).contains(v.name)),
            b.dims,
            merged(a, b).dims,
        ),
{
    assert(unlike(a.dims) =~= (|d: Dim| !names(a.dims).contains(d.name)));
    assert(unlike(a.atts) =~= (|t: Att| !names(a.atts).contains(t.name)));
    assert(unlike(a.vars) =~= (|v: Var| !names(a.vars).contains(v.name)));
    assert(merged(a, b).dims.skip(a.dims.len() as int) =~= fresh(a.dims, b.dims));
    assert(merged(a, b).atts.skip(a.atts.len() as int) =~= fresh(a.atts, b.atts));
    assert(merged(a, b).vars.skip(a.vars.len() as int) =~= all_moved(
        fresh(a.vars, b.vars),
        b.dims,
        merged(a, b).dims,
    ));
}

/// Merging a dataset with itself gives it back.
pub proof fn law_merge_with_itself(a: Dataset)
    ensures
        merged(a, a) == a,
{
    lemma_none_fresh(a.dims);
    lemma_none_fresh(a.atts);
    lemma_none_fresh(a.vars);
    assert(merged(a, a) =~= a);
}

/// Nothing of `xs` is named unlike all of `xs`.
proof fn lemma_none_fresh<T: Named>(xs: Seq<T>)
    ensures
        fresh(xs, xs).len() == 0,
{
    lemma_fresh_members(xs, xs);
    if fresh(xs, xs).len() > 0 {
        let x = fresh(xs, xs)[0];
        assert(xs.contains(x));
        let k = choose|k: int| 0 <= k < xs.len() && xs[k] == x;
        assert(names(xs)[k] == x.name());
    }
}

/// Merging two datasets that share no names gives everything of both.
pub proof fn law_merge_of_unrelated(a: Dataset, b: Dataset)
    requires
        forall|i: int| 0 <= i < b.dims.len() ==> !names(a.dims).contains(#[trigger] b.dims[i].name),
        forall|i: int| 0 <= i < b.atts.len() ==> !names(a.atts).contains(#[trigger] b.atts[i].name),
        forall|i: int| 0 <= i < b.vars.len() ==> !names(a.vars).contains(#[trigger] b.vars[i].name),
    ensures
        merged(a, b).dims == a.dims + b.dims,
        merged(a, b).atts == a.atts + b.atts,
        merged(a, b).vars == a.vars + all_moved(b.vars, b.dims, a.dims + b.dims),
{
    assert forall|i: int| 0 <= i < b.dims.len() implies !names(a.dims).contains(
        (#[trigger] b.dims[i]).name(),
    ) by {
        assert(!names(a.dims).contains(b.dims[i].name));
    }
    assert forall|i: int| 0 <= i < b.atts.len() implies !names(a.atts).contains(
        (#[trigger] b.atts[i]).name(),
    ) by {
        assert(!names(a.atts).contains(b.atts[i].name));
    }
    assert forall|i: int| 0 <= i < b.vars.len() implies !names(a.vars).contains(
        (#[trigger] b.vars[i]).name(),
    ) by {
        assert(!names(a.vars).contains(b.vars[i].name));
    }
    lemma_unlike_all_fresh(a.dims, b.dims);
    lemma_unlike_all_fresh(a.atts, b.atts);
    lemma_unlike_all_fresh(a.vars, b.vars);
}

/// All of `others` are fresh where none is named like one of `kept`.
proof fn lemma_unlike_all_fresh<T: Named>(kept: Seq<T>, others: Seq<T>)
    requires
        forall|i: int|
            0 <= i < others.len() ==> !names(kept).contains((#[trigger] others[i]).name()),
    ensures
        fresh(kept, others) == others,
    decreases others.len(),
{
    reveal(Seq::filter);
    if others.len() > 0 {
        assert forall|i: int| 0 <= i < others.drop_last().len() implies !names(kept).contains(
            (#[trigger] others.drop_last()[i]).name(),
        ) by {
            assert(others.drop_last()[i] == others[i]);
        }
        lemma_unlike_all_fresh(kept, others.drop_last());
        assert(!names(kept).contains(others[others.len() - 1].name()));
        assert(others.drop_last().push(others.last()) =~= others);
    } else {
        assert(fresh(kept, others) =~= others);
    }
}

/// A dimension of part B is in the merged dataset, with its name and its length.
pub proof fn law_dimension_of_part_b(a: Dataset, b: Dataset, i: int)
    requires
        well_named(a.dims),
        well_named(b.dims),
        compatible(a.dims, b.dims),
        0 <= i < b.dims.len(),
    ensures
        ({
            let k = dim_at(merged(a, b).dims, b.dims[i].name);
            0 <= k < merged(a, b).dims.len() && merged(a, b).dims[k] == b.dims[i]
        }),
{
    let to = merged(a, b).dims;
    let n = b.dims[i].name;
    assert(b.dims.take(b.dims.len() as int) =~= b.dims);
    lemma_first_wins_named(a.dims, b.dims, b.dims.len() as int);
    lemma_fresh_members(a.dims, b.dims);
    if names(a.dims).contains(n) {
        let m = choose|m: int| 0 <= m < names(a.dims).len() && names(a.dims)[m] == n;
        assert(a.dims[m].name == n);
        assert(!conflicts(a.dims, b.dims[i]));
        assert(to[m] == a.dims[m]);
        lemma_dim_at(to, m);
    } else {
        assert(!names(a.dims).contains(b.dims[i].name()));
        assert(fresh(a.dims, b.dims).contains(b.dims[i]));
        let m = choose|m: int|
            0 <= m < fresh(a.dims, b.dims).len() && fresh(a.dims, b.dims)[m] == b.dims[i];
        assert(to[a.dims.len() + m] == b.dims[i]);
        lemma_dim_at(to, a.dims.len() + m);
    }
}

/// A variable of part B has as many elements in the merged dataset.
proof fn lemma_same_count(a: Dataset, b: Dataset, v: Var, n: int)
    requires
        well_named(a.dims),
        well_named(b.dims),
        compatible(a.dims, b.dims),
        forall|i: int| 0 <= i < v.dims.len() ==> 0 <= #[trigger] v.dims[i] < b.dims.len(),
        0 <= n <= v.dims.len(),
    ensures
        merged(a, b).count(moved(v, b.dims, merged(a, b).dims), n) == b.count(v, n),
    decreases n,
{
    if n > 0 {
        lemma_same_count(a, b, v, n - 1);
        assert(0 <= v.dims[n - 1] < b.dims.len());
        law_dimension_of_part_b(a, b, v.dims[n - 1]);
    }
}

/// A variable of part A has as many elements in the merged dataset.
proof fn lemma_kept_count(a: Dataset, b: Dataset, v: Var, n: int)
    requires
        forall|i: int| 0 <= i < v.dims.len() ==> 0 <= #[trigger] v.dims[i] < a.dims.len(),
        0 <= n <= v.dims.len(),
    ensures
        merged(a, b).count(v, n) == a.count(v, n),
    decreases n,
{
    if n > 0 {
        lemma_kept_count(a, b, v, n - 1);
        assert(0 <= v.dims[n - 1] < a.dims.len());
    }
}

/// Merged things are well named, where they can be counted.
proof fn lemma_well_named<T: Named>(a: Seq<T>, b: Seq<T>)
    requires
        well_named(a),
        well_named(b),
        first_wins(a, b).len() <= i32::MAX,
    ensures
        well_named(first_wins(a, b)),
{
    assert(b.take(b.len() as int) =~= b);
    lemma_first_wins_named(a, b, b.len() as int);
}

/// The dataset that merging gives is one: no two dimensions, global attributes or variables have
/// the same name, and every variable stands on dimensions that are there, with as many values as
/// elements.
pub proof fn law_merged_is_valid(a: Dataset, b: Dataset, type_size: spec_fn(i32) -> usize)
    requires
        a.valid(type_size),
        b.valid(type_size),
        compatible(a.dims, b.dims),
        first_wins(a.dims, b.dims).len() <= i32::MAX,
        first_wins(a.atts, b.atts).len() <= i32::MAX,
        first_wins(a.vars, b.vars).len() <= i32::MAX,
    ensures
        merged(a, b).valid(type_size),
{
    let out = merged(a, b);
    let na = a.vars.len() as int;
    let added = fresh(a.vars, b.vars);
    lemma_well_named(a.dims, b.dims);
    lemma_well_named(a.atts, b.atts);
    lemma_well_named(a.vars, b.vars);
    lemma_fresh_members(a.vars, b.vars);
    assert(names(out.vars) =~= names(first_wins(a.vars, b.vars)));
    assert forall|i: int| 0 <= i < out.vars.len() implies {
        &&& valid_utf8(#[trigger] out.vars[i].name())
        &&& !out.vars[i].name().contains(0u8)
    } by {
        assert(names(out.vars)[i] == names(first_wins(a.vars, b.vars))[i]);
        assert(valid_utf8(first_wins(a.vars, b.vars)[i].name()));
    }
    assert forall|i: int| 0 <= i < out.vars.len() implies out.holds(
        #[trigger] out.vars[i],
        type_size,
    ) by {
        if i < na {
            let v = a.vars[i];
            assert(out.vars[i] == v);
            assert(a.holds(v, type_size));
            lemma_kept_count(a, b, v, v.dims.len() as int);
        } else {
            let v = added[i - na];
            assert(out.vars[i] == moved(v, b.dims, out.dims));
            assert(b.vars.contains(v));
            let k = choose|k: int| 0 <= k < b.vars.len() && b.vars[k] == v;
            assert(b.holds(b.vars[k], type_size));
            lemma_same_count(a, b, v, v.dims.len() as int);
            assert forall|j: int| 0 <= j < out.vars[i].dims.len() implies 0
                <= #[trigger] out.vars[i].dims[j] < out.dims.len() by {
                assert(0 <= v.dims[j] < b.dims.len());
                law_dimension_of_part_b(a, b, v.dims[j]);
            }
        }
    }
}

/// The names of merged things are those of both.
proof fn lemma_merged_names<T: Named>(a: Seq<T>, b: Seq<T>, n: Seq<u8>)
    ensures
        names(first_wins(a, b)).contains(n) <==> names(a).contains(n) || names(b).contains(n),
{
    let all = first_wins(a, b);
    lemma_fresh_members(a, b);
    if names(a).contains(n) {
        let k = choose|k: int| 0 <= k < names(a).len() && names(a)[k] == n;
        assert(all[k] == a[k]);
        assert(names(all)[k] == n);
    } else if names(b).contains(n) {
        let k = choose|k: int| 0 <= k < names(b).len() && names(b)[k] == n;
        assert(!names(a).contains(b[k].name()));
        assert(fresh(a, b).contains(b[k]));
        let m = choose|m: int| 0 <= m < fresh(a, b).len() && fresh(a, b)[m] == b[k];
        assert(all[a.len() + m] == b[k]);
        assert(names(all)[a.len() + m] == n);
    }
    if names(all).contains(n) {
        let k = choose|k: int| 0 <= k < names(all).len() && names(all)[k] == n;
        if k < a.len() {
            assert(names(a)[k] == n);
        } else {
            let x = fresh(a, b)[k - a.len()];
            assert(all[k] == x);
            assert(b.contains(x));
            let m = choose|m: int| 0 <= m < b.len() && b[m] == x;
            assert(names(b)[m] == n);
        }
    }
}

/// What is new after two things is what is new after the first of what is new after the second.
proof fn lemma_fresh_twice<T: Named>(a: Seq<T>, b: Seq<T>, c: Seq<T>)
    ensures
        fresh(first_wins(a, b), c) == fresh(a, fresh(b, c)),
    decreases c.len(),
{
    reveal(Seq::filter);
    if c.len() > 0 {
        let x = c.last();
        lemma_fresh_twice(a, b, c.drop_last());
        lemma_merged_names(a, b, x.name());
        let inner = fresh(b, c.drop_last());
        assert(inner.push(x).drop_last() =~= inner);
        assert(inner.push(x).last() == x);
    } else {
        assert(fresh(b, c) =~= c);
        assert(fresh(first_wins(a, b), c) =~= fresh(a, fresh(b, c)));
    }
}

/// What is new in two sequences, one after the other.
proof fn lemma_fresh_add<T: Named>(a: Seq<T>, x: Seq<T>, y: Seq<T>)
    ensures
        fresh(a, x + y) == fresh(a, x) + fresh(a, y),
    decreases y.len(),
{
    reveal(Seq::filter);
    if y.len() > 0 {
        lemma_fresh_add(a, x, y.drop_last());
        assert((x + y).drop_last() =~= x + y.drop_last());
        assert((x + y).last() == y.last());
        assert(fresh(a, x + y) =~= fresh(a, x) + fresh(a, y));
    } else {
        assert(x + y =~= x);
        assert(fresh(a, x + y) =~= fresh(a, x) + fresh(a, y));
    }
}

/// Of things with one name the first wins, in whatever order the sequences are put together.
proof fn lemma_first_wins_associative<T: Named>(a: Seq<T>, b: Seq<T>, c: Seq<T>)
    ensures
        first_wins(first_wins(a, b), c) == first_wins(a, first_wins(b, c)),
{
    lemma_fresh_twice(a, b, c);
    lemma_fresh_add(a, b, fresh(b, c));
    assert(first_wins(first_wins(a, b), c) =~= first_wins(a, first_wins(b, c)));
}

/// Which variables are new does not depend on the dimensions that they are on.
proof fn lemma_fresh_moved(a: Seq<Var>, vs: Seq<Var>, from: Seq<Dim>, to: Seq<Dim>)
    ensures
        fresh(a, all_moved(vs, from, to)) == all_moved(fresh(a, vs), from, to),
    decreases vs.len(),
{
    reveal(Seq::filter);
    let all = all_moved(vs, from, to);
    if vs.len() > 0 {
        lemma_fresh_moved(a, vs.drop_last(), from, to);
        assert(all.drop_last() =~= all_moved(vs.drop_last(), from, to));
        assert(all.last() == moved(vs.last(), from, to));
        assert(all.last().name() == vs.last().name());
    }
    assert(fresh(a, all) =~= all_moved(fresh(a, vs), from, to));
}

/// Which variables are new does not depend on the dimensions that the first ones are on.
proof fn lemma_fresh_after_moved(a: Seq<Var>, b: Seq<Var>, c: Seq<Var>)
    requires
        names(a) == names(b),
    ensures
        fresh(a, c) == fresh(b, c),
{
    assert(unlike(a) =~= unlike(b));
}

/// A dimension that is found by its name has that name.
proof fn lemma_dim_found(dims: Seq<Dim>, n: Seq<u8>)
    requires
        names(dims).contains(n),
    ensures
        0 <= dim_at(dims, n) < dims.len(),
        dims[dim_at(dims, n)].name == n,
{
    let k = choose|k: int| 0 <= k < names(dims).len() && names(dims)[k] == n;
    assert(dims[k].name == n);
}

/// A dimension is found at the same place where more come after it.
proof fn lemma_dim_at_prefix(dims: Seq<Dim>, more: Seq<Dim>, n: Seq<u8>)
    requires
        names(more).no_duplicates(),
        dims.len() <= more.len(),
        more.take(dims.len() as int) == dims,
        names(dims).contains(n),
    ensures
        dim_at(more, n) == dim_at(dims, n),
{
    lemma_dim_found(dims, n);
    let k = dim_at(dims, n);
    assert(more.take(dims.len() as int)[k] == more[k]);
    lemma_dim_at(more, k);
}

/// Merging is associative: it makes no difference which two of three datasets in a row are merged
/// first.
pub proof fn law_merge_is_associative(
    a: Dataset,
    b: Dataset,
    c: Dataset,
    type_size: spec_fn(i32) -> usize,
)
    requires
        a.valid(type_size),
        b.valid(type_size),
        c.valid(type_size),
    ensures
        merged(merged(a, b), c) == merged(a, merged(b, c)),
{
    let ab = merged(a, b);
    let bc = merged(b, c);
    let dims = first_wins(ab.dims, c.dims);
    lemma_first_wins_associative(a.dims, b.dims, c.dims);
    lemma_first_wins_associative(a.atts, b.atts, c.atts);
    lemma_associative_vars_b(a, b, c, type_size);
    lemma_associative_vars_c(a, b, c, type_size);
    let vb = fresh(a.vars, b.vars);
    let vc = fresh(a.vars, fresh(b.vars, c.vars));
    // What the merge of the first two brings.
    assert(names(ab.vars) =~= names(first_wins(a.vars, b.vars)));
    lemma_fresh_after_moved(ab.vars, first_wins(a.vars, b.vars), c.vars);
    lemma_fresh_twice(a.vars, b.vars, c.vars);
    assert(merged(ab, c).vars =~= a.vars + all_moved(vb, b.dims, ab.dims) + all_moved(
        vc,
        c.dims,
        dims,
    ));
    // What the merge of the last two brings.
    lemma_fresh_add(a.vars, b.vars, all_moved(fresh(b.vars, c.vars), c.dims, bc.dims));
    lemma_fresh_moved(a.vars, fresh(b.vars, c.vars), c.dims, bc.dims);
    assert(fresh(a.vars, bc.vars) == vb + all_moved(vc, c.dims, bc.dims));
    assert(all_moved(vb + all_moved(vc, c.dims, bc.dims), bc.dims, dims) =~= all_moved(
        vb,
        bc.dims,
        dims,
    ) + all_moved(all_moved(vc, c.dims, bc.dims), bc.dims, dims));
    assert(merged(a, bc).vars =~= a.vars + all_moved(vb, b.dims, ab.dims) + all_moved(
        vc,
        c.dims,
        dims,
    ));
    assert(merged(ab, c) =~= merged(a, bc));
}

/// Merged things have different names.
proof fn lemma_no_duplicates<T: Named>(a: Seq<T>, b: Seq<T>)
    requires
        names(a).no_duplicates(),
        names(b).no_duplicates(),
    ensures
        names(first_wins(a, b)).no_duplicates(),
    decreases b.len(),
{
    let all = first_wins(a, b);
    if b.len() == 0 {
        lemma_nothing_fresh(a, b);
        assert(b.take(0) =~= b);
    } else {
        let n = b.len() - 1;
        let before = first_wins(a, b.take(n));
        assert(names(b.take(n)) =~= names(b).take(n));
        lemma_no_duplicates(a, b.take(n));
        lemma_fresh_step(a, b, n);
        assert(b.take(n + 1) =~= b);
        lemma_seen(a, b, n);
        if names(a).contains(b[n].name()) {
            assert(all =~= before);
        } else {
            assert(all =~= before.push(b[n]));
            assert forall|x: int, y: int|
                0 <= x < names(all).len() && 0 <= y < names(all).len() && x != y implies names(
                all,
            )[x] != names(all)[y] by {
                if x < before.len() {
                    assert(names(before)[x] == names(all)[x]);
                }
                if y < before.len() {
                    assert(names(before)[y] == names(all)[y]);
                }
            }
        }
    }
}

/// The variables of the second dataset end up on the same dimensions.
proof fn lemma_associative_vars_b(
    a: Dataset,
    b: Dataset,
    c: Dataset,
    type_size: spec_fn(i32) -> usize,
)
    requires
        a.valid(type_size),
        b.valid(type_size),
        c.valid(type_size),
    ensures
        all_moved(
            fresh(a.vars, b.vars),
            merged(b, c).dims,
            first_wins(merged(a, b).dims, c.dims),
        ) == all_moved(fresh(a.vars, b.vars), b.dims, merged(a, b).dims),
{
    let ab = merged(a, b).dims;
    let bc = merged(b, c).dims;
    let dims = first_wins(ab, c.dims);
    let vb = fresh(a.vars, b.vars);
    lemma_no_duplicates(a.dims, b.dims);
    lemma_no_duplicates(ab, c.dims);
    lemma_fresh_members(a.vars, b.vars);
    assert(dims.take(ab.len() as int) =~= ab);
    assert forall|i: int| 0 <= i < vb.len() implies moved(vb[i], bc, dims) == #[trigger] moved(
        vb[i],
        b.dims,
        ab,
    ) by {
        let v = vb[i];
        assert(b.vars.contains(v));
        let m = choose|m: int| 0 <= m < b.vars.len() && b.vars[m] == v;
        assert(b.holds(b.vars[m], type_size));
        assert forall|k: int| 0 <= k < v.dims.len() implies dim_at(
            dims,
            bc[#[trigger] v.dims[k]].name,
        ) == dim_at(ab, b.dims[v.dims[k]].name) by {
            let d = v.dims[k];
            assert(0 <= d < b.dims.len());
            assert(bc[d] == b.dims[d]);
            assert(names(b.dims)[d] == b.dims[d].name);
            lemma_merged_names(a.dims, b.dims, b.dims[d].name);
            lemma_dim_at_prefix(ab, dims, b.dims[d].name);
        }
        assert(moved(v, bc, dims).dims =~= moved(v, b.dims, ab).dims);
    }
    assert(all_moved(vb, bc, dims) =~= all_moved(vb, b.dims, ab));
}

/// The variables of the third dataset end up on the same dimensions.
proof fn lemma_associative_vars_c(
    a: Dataset,
    b: Dataset,
    c: Dataset,
    type_size: spec_fn(i32) -> usize,
)
    requires
        a.valid(type_size),
        b.valid(type_size),
        c.valid(type_size),
    ensures
        ({
            let vc = fresh(a.vars, fresh(b.vars, c.vars));
            let dims = first_wins(merged(a, b).dims, c.dims);
            all_moved(all_moved(vc, c.dims, merged(b, c).dims), merged(b, c).dims, dims)
                == all_moved(vc, c.dims, dims)
        }),
{
    let bc = merged(b, c).dims;
    let dims = first_wins(merged(a, b).dims, c.dims);
    let vc = fresh(a.vars, fresh(b.vars, c.vars));
    lemma_fresh_members(b.vars, c.vars);
    lemma_fresh_members(a.vars, fresh(b.vars, c.vars));
    assert forall|i: int| 0 <= i < vc.len() implies moved(
        #[trigger] moved(vc[i], c.dims, bc),
        bc,
        dims,
    ) == moved(vc[i], c.dims, dims) by {
        let v = vc[i];
        assert(fresh(b.vars, c.vars).contains(v));
        let l = choose|l: int|
            0 <= l < fresh(b.vars, c.vars).len() && fresh(b.vars, c.vars)[l] == v;
        assert(c.vars.contains(v));
        let m = choose|m: int| 0 <= m < c.vars.len() && c.vars[m] == v;
        assert(c.holds(c.vars[m], type_size));
        let once = moved(v, c.dims, bc);
        assert forall|k: int| 0 <= k < v.dims.len() implies bc[#[trigger] once.dims[k]].name
            == c.dims[v.dims[k]].name by {
            let d = v.dims[k];
            assert(0 <= d < c.dims.len());
            assert(names(c.dims)[d] == c.dims[d].name);
            lemma_merged_names(b.dims, c.dims, c.dims[d].name);
            lemma_dim_found(bc, c.dims[d].name);
        }
        assert(moved(once, bc, dims).dims =~= moved(v, c.dims, dims).dims);
    }
    assert(all_moved(all_moved(vc, c.dims, bc), bc, dims) =~= all_moved(vc, c.dims, dims));
}

} // verus!
