//! What it takes for things to be a dataset, and for two datasets to be merged.

use vstd::prelude::*;
use vstd::utf8::*;
use crate::model::{
    all_moved, compatible, conflicts, definable, first_wins, fresh, measurable, mergeable, moved,
    names, numberable, supported, well_named, Att, Dataset, Dim, Named, Values, Var,
};

verus! {

/// The names of things are the names that they have, in their order.
pub proof fn law_names<T: Named>(xs: Seq<T>, i: int)
    requires
        0 <= i < xs.len(),
    ensures
        names(xs).len() == xs.len(),
        names(xs)[i] == xs[i].name(),
        names(xs).contains(xs[i].name()),
{
    assert(names(xs)[i] == xs[i].name());
}

/// What dimensions, attributes and variables are called is their name.
pub proof fn law_called(d: Dim, t: Att, v: Var)
    ensures
        d.name() == d.name,
        t.name() == t.name,
        v.name() == v.name,
{
}

/// A name is among those of things exactly where one of them has it.
pub proof fn law_among_names<T: Named>(xs: Seq<T>, n: Seq<u8>)
    ensures
        names(xs).contains(n) <==> exists|i: int| 0 <= i < xs.len() && #[trigger] xs[i].name() == n,
{
    if names(xs).contains(n) {
        let i = choose|i: int| 0 <= i < names(xs).len() && names(xs)[i] == n;
        assert(xs[i].name() == n);
    }
    if exists|i: int| 0 <= i < xs.len() && #[trigger] xs[i].name() == n {
        let i = choose|i: int| 0 <= i < xs.len() && #[trigger] xs[i].name() == n;
        assert(names(xs)[i] == n);
    }
}

/// Things are well named exactly where there are not more than can be counted, no two have the
/// same name, and every name is UTF-8 without NUL.
pub proof fn law_well_named<T: Named>(xs: Seq<T>)
    ensures
        well_named(xs) <==> {
            &&& xs.len() <= 2147483647
            &&& forall|i: int, j: int|
                0 <= i < j < xs.len() ==> #[trigger] xs[i].name() != #[trigger] xs[j].name()
            &&& forall|i: int| 0 <= i < xs.len() ==> valid_utf8(#[trigger] xs[i].name())
            &&& forall|i: int| 0 <= i < xs.len() ==> !(#[trigger] xs[i].name()).contains(0u8)
        },
{
    let distinct = forall|i: int, j: int|
        0 <= i < j < xs.len() ==> #[trigger] xs[i].name() != #[trigger] xs[j].name();
    if names(xs).no_duplicates() {
        assert forall|i: int, j: int| 0 <= i < j < xs.len() implies #[trigger] xs[i].name()
            != #[trigger] xs[j].name() by {
            assert(names(xs)[i] != names(xs)[j]);
        }
    }
    if distinct {
        assert forall|i: int, j: int|
            0 <= i < names(xs).len() && 0 <= j < names(xs).len() && i != j implies names(xs)[i]
            != names(xs)[j] by {
            assert(names(xs)[i] == xs[i].name());
            assert(names(xs)[j] == xs[j].name());
        }
    }
}

/// A variable can stand in a dataset exactly where all its dimensions are there, its attributes
/// are well named, and it has one string for each element, or bytes for each element where it is
/// not of strings.
pub proof fn law_holds(d: Dataset, v: Var, type_size: spec_fn(i32) -> usize)
    ensures
        d.holds(v, type_size) <==> {
            &&& forall|i: int|
                0 <= i < v.dims.len() ==> 0 <= #[trigger] v.dims[i] && v.dims[i] < d.dims.len()
            &&& well_named(v.atts)
            &&& ({
                ||| v.xtype == 12 && (v.values matches Values::Strings(s) && s.len() == d.count(
                    v,
                    v.dims.len() as int,
                ))
                ||| v.xtype != 12 && (v.values matches Values::Bytes(b) && b.len() == d.count(
                    v,
                    v.dims.len() as int,
                ) * type_size(v.xtype))
            })
        },
{
}

/// Elements are counted by multiplying the lengths of the dimensions.
pub proof fn law_count(d: Dataset, v: Var, n: int)
    requires
        0 <= n,
    ensures
        d.count(v, 0) == 1,
        d.count(v, n + 1) == d.count(v, n) * d.dims[v.dims[n]].len,
        d.elements(v) == d.count(v, v.dims.len() as int),
{
}

/// A dataset is valid exactly where its dimensions, global attributes and variables are well named
/// and it holds each of its variables.
pub proof fn law_valid(d: Dataset, type_size: spec_fn(i32) -> usize)
    ensures
        d.valid(type_size) <==> {
            &&& well_named(d.dims)
            &&& well_named(d.atts)
            &&& well_named(d.vars)
            &&& forall|i: int| 0 <= i < d.vars.len() ==> d.holds(#[trigger] d.vars[i], type_size)
        },
{
}

/// Dimensions are compatible exactly where those of the same name have the same length.
pub proof fn law_compatible(a: Seq<Dim>, b: Seq<Dim>)
    ensures
        compatible(a, b) <==> forall|k: int, j: int|
            #![trigger a[k], b[j]]
            0 <= k < a.len() && 0 <= j < b.len() && a[k].name == b[j].name ==> a[k].len == b[j].len,
{
    if compatible(a, b) {
        assert forall|k: int, j: int|
            #![trigger a[k], b[j]]
            0 <= k < a.len() && 0 <= j < b.len() && a[k].name == b[j].name implies a[k].len
            == b[j].len by {
            assert(!conflicts(a, b[j]));
            assert(a[k].name == b[j].name);
        }
    }
}

/// Two datasets can be merged exactly where dimensions of the same name have the same length, and
/// every variable of part A and every new one of part B has a type that is merged and values that
/// can be counted.
pub proof fn law_mergeable(a: Dataset, b: Dataset, type_size: spec_fn(i32) -> usize)
    ensures
        mergeable(a, b, type_size) <==> {
            &&& compatible(a.dims, b.dims)
            &&& forall|i: int|
                #![trigger a.vars[i]]
                0 <= i < a.vars.len() ==> 1 <= a.vars[i].xtype <= 12 && a.countable(
                    a.vars[i],
                    type_size,
                )
            &&& forall|i: int|
                #![trigger fresh(a.vars, b.vars)[i]]
                0 <= i < fresh(a.vars, b.vars).len() ==> 1 <= fresh(a.vars, b.vars)[i].xtype <= 12
                    && b.countable(fresh(a.vars, b.vars)[i], type_size)
        },
        definable(a, b) <==> compatible(a.dims, b.dims) && supported(a.vars) && supported(
            fresh(a.vars, b.vars),
        ),
        mergeable(a, b, type_size) <==> definable(a, b) && measurable(a, a.vars, type_size)
            && measurable(b, fresh(a.vars, b.vars), type_size),
{
}

/// The values of a variable can be counted exactly where the elements along its first dimensions
/// can, for any number of these, and the bytes of all elements unless they are strings.
pub proof fn law_countable(d: Dataset, v: Var, type_size: spec_fn(i32) -> usize)
    ensures
        d.countable(v, type_size) <==> {
            &&& forall|n: int| 0 <= n <= v.dims.len() ==> #[trigger] d.count(v, n) <= usize::MAX
            &&& v.xtype == 12 || d.count(v, v.dims.len() as int) * type_size(v.xtype) <= usize::MAX
        },
{
}

/// Merged dimensions and variables can be numbered exactly where there are not more of them than
/// the largest ID.
pub proof fn law_numberable(a: Dataset, b: Dataset)
    ensures
        numberable(a, b) <==> {
            &&& a.dims.len() + fresh(a.dims, b.dims).len() <= 2147483647
            &&& a.vars.len() + fresh(a.vars, b.vars).len() <= 2147483647
        },
        first_wins(a.dims, b.dims) == a.dims + fresh(a.dims, b.dims),
{
}

/// What is new among things are those whose names the others do not have, in their order.
pub proof fn law_new_things<T: Named>(kept: Seq<T>, others: Seq<T>)
    ensures
        fresh(kept, others) == others.filter(
            |x: T|
                !exists|i: int| 0 <= i < kept.len() && #[trigger] kept[i].name() == x.name(),
        ),
{
    let p = |x: T| !exists|i: int| 0 <= i < kept.len() && #[trigger] kept[i].name() == x.name();
    let q = |x: T| !names(kept).contains(x.name());
    assert forall|x: T| #[trigger] p(x) == q(x) by {
        law_among_names(kept, x.name());
    }
    assert(p =~= q);
}

/// A variable that is moved keeps its name, type, attributes and values, and as many dimensions.
pub proof fn law_moved(v: Var, from: Seq<Dim>, to: Seq<Dim>)
    ensures
        moved(v, from, to).name == v.name,
        moved(v, from, to).xtype == v.xtype,
        moved(v, from, to).atts == v.atts,
        moved(v, from, to).values == v.values,
        moved(v, from, to).dims.len() == v.dims.len(),
{
}

/// A variable that is moved stands on dimensions of the same names, where there are such.
pub proof fn law_moved_dimensions(v: Var, from: Seq<Dim>, to: Seq<Dim>, i: int, k: int)
    requires
        0 <= i < v.dims.len(),
        0 <= k < to.len(),
        to[k].name == from[v.dims[i]].name,
    ensures
        0 <= moved(v, from, to).dims[i] < to.len(),
        to[moved(v, from, to).dims[i]].name == from[v.dims[i]].name,
{
}

/// Variables are moved one by one.
pub proof fn law_all_moved(vars: Seq<Var>, from: Seq<Dim>, to: Seq<Dim>, i: int)
    requires
        0 <= i < vars.len(),
    ensures
        all_moved(vars, from, to).len() == vars.len(),
        all_moved(vars, from, to)[i] == moved(vars[i], from, to),
{
}

} // verus!
