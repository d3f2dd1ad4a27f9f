//! What NetCDF-4 datasets hold, and what merging two of them gives.

use vstd::prelude::*;
use vstd::utf8::*;
use crate::protocol::{supported_type, NC_STRING};

verus! {

/// Something with a name. Names are kept as the bytes of their UTF-8 form.
pub trait Named: Sized {
    spec fn name(self) -> Seq<u8>;
}

/// A dimension.
#[verifier::ext_equal]
pub struct Dim {
    pub name: Seq<u8>,
    pub len: usize,
}

/// An attribute, with its type and the bytes of its value.
#[verifier::ext_equal]
pub struct Att {
    pub name: Seq<u8>,
    pub xtype: i32,
    pub value: Seq<u8>,
}

/// The values of a variable.
#[verifier::ext_equal]
pub enum Values {
    /// None have been written.
    Unset,
    /// The elements of a variable of strings.
    Strings(Seq<Seq<u8>>),
    /// The bytes of all elements of any other variable.
    Bytes(Seq<u8>),
}

/// A variable. `dims` are the positions of its dimensions among those of the dataset.
#[verifier::ext_equal]
pub struct Var {
    pub name: Seq<u8>,
    pub xtype: i32,
    pub dims: Seq<int>,
    pub atts: Seq<Att>,
    pub values: Values,
}

/// A dataset: its dimensions, global attributes and variables.
#[verifier::ext_equal]
pub struct Dataset {
    pub dims: Seq<Dim>,
    pub atts: Seq<Att>,
    pub vars: Seq<Var>,
}

impl Named for Dim {
    open spec fn name(self) -> Seq<u8> {
        self.name
    }
}

impl Named for Att {
    open spec fn name(self) -> Seq<u8> {
        self.name
    }
}

impl Named for Var {
    open spec fn name(self) -> Seq<u8> {
        self.name
    }
}

/// The names of `xs`, in order.
pub open spec fn names<T: Named>(xs: Seq<T>) -> Seq<Seq<u8>> {
    Seq::new(xs.len(), |i: int| xs[i].name())
}

/// Whether `xs` are named as NetCDF names things: no two alike, every name UTF-8 without NUL, and
/// no more of them than can be counted.
pub open spec fn well_named<T: Named>(xs: Seq<T>) -> bool {
    &&& xs.len() <= i32::MAX
    &&& names(xs).no_duplicates()
    &&& forall|i: int|
        0 <= i < xs.len() ==> valid_utf8(#[trigger] xs[i].name()) && !xs[i].name().contains(0u8)
}

/// Whether something is named unlike all of `kept`.
pub open spec fn unlike<T: Named>(kept: Seq<T>) -> spec_fn(T) -> bool {
    |x: T| !names(kept).contains(x.name())
}

/// Those of `others` that are named unlike all of `kept`, in order.
pub open spec fn fresh<T: Named>(kept: Seq<T>, others: Seq<T>) -> Seq<T> {
    others.filter(unlike(kept))
}

/// All of `kept`, then those of `others` whose names are not among theirs.
pub open spec fn first_wins<T: Named>(kept: Seq<T>, others: Seq<T>) -> Seq<T> {
    kept + fresh(kept, others)
}

/// The position of the dimension called `name` among `dims`.
pub open spec fn dim_at(dims: Seq<Dim>, name: Seq<u8>) -> int {
    choose|k: int| 0 <= k < dims.len() && #[trigger] dims[k].name == name
}

/// The variable `v`, whose dimensions are among `from`, on the dimensions of the same names
/// among `to`.
pub open spec fn moved(v: Var, from: Seq<Dim>, to: Seq<Dim>) -> Var {
    Var { dims: Seq::new(v.dims.len(), |i: int| dim_at(to, from[v.dims[i]].name)), ..v }
}

/// Each of `vars` on the dimensions of the same names among `to`.
pub open spec fn all_moved(vars: Seq<Var>, from: Seq<Dim>, to: Seq<Dim>) -> Seq<Var> {
    Seq::new(vars.len(), |i: int| moved(vars[i], from, to))
}

impl Dataset {
    /// A dataset that holds nothing.
    pub open spec fn empty() -> Dataset {
        Dataset { dims: Seq::empty(), atts: Seq::empty(), vars: Seq::empty() }
    }

    /// The number of elements along the first `n` dimensions of `v`.
    pub open spec fn count(self, v: Var, n: int) -> nat
        decreases n,
    {
        if n <= 0 {
            1
        } else {
            self.count(v, n - 1) * self.dims[v.dims[n - 1]].len as nat
        }
    }

    /// The number of elements of `v`.
    pub open spec fn elements(self, v: Var) -> nat {
        self.count(v, v.dims.len() as int)
    }

    /// Whether the variable `v` can stand in the dataset: its dimensions are there, its attributes
    /// are well named, and it has as many values as elements. `type_size` gives the size of the
    /// elements of each type.
    pub open spec fn holds(self, v: Var, type_size: spec_fn(i32) -> usize) -> bool {
        &&& forall|i: int| 0 <= i < v.dims.len() ==> 0 <= #[trigger] v.dims[i] < self.dims.len()
        &&& well_named(v.atts)
        &&& match v.values {
            Values::Unset => false,
            Values::Strings(s) => v.xtype == NC_STRING && s.len() == self.elements(v),
            Values::Bytes(b) => v.xtype != NC_STRING && b.len() == self.elements(v) * type_size(
                v.xtype,
            ),
        }
    }

    /// Whether this can be a dataset.
    pub open spec fn valid(self, type_size: spec_fn(i32) -> usize) -> bool {
        &&& well_named(self.dims)
        &&& well_named(self.atts)
        &&& well_named(self.vars)
        &&& forall|i: int|
            0 <= i < self.vars.len() ==> self.holds(#[trigger] self.vars[i], type_size)
    }

    /// Whether the elements of `v` can be counted dimension by dimension, and the bytes of its
    /// values too unless they are strings.
    pub open spec fn countable(self, v: Var, type_size: spec_fn(i32) -> usize) -> bool {
        &&& forall|n: int| 0 <= n <= v.dims.len() ==> #[trigger] self.count(v, n) <= usize::MAX
        &&& v.xtype != NC_STRING ==> self.elements(v) * type_size(v.xtype) <= usize::MAX
    }
}

/// Whether the dimension `d` conflicts with one of `dims`: that has the same name and another
/// length.
pub open spec fn conflicts(dims: Seq<Dim>, d: Dim) -> bool {
    exists|k: int| 0 <= k < dims.len() && #[trigger] dims[k].name == d.name && dims[k].len != d.len
}

/// Whether no dimension of `b` conflicts with one of `a`.
pub open spec fn compatible(a: Seq<Dim>, b: Seq<Dim>) -> bool {
    forall|j: int| 0 <= j < b.len() ==> !conflicts(a, #[trigger] b[j])
}

/// The dataset that merging `a` and `b` gives: everything of `a`, and of `b` the dimensions,
/// global attributes and variables whose names `a` does not have.
pub open spec fn merged(a: Dataset, b: Dataset) -> Dataset {
    let dims = first_wins(a.dims, b.dims);
    Dataset {
        dims,
        atts: first_wins(a.atts, b.atts),
        vars: a.vars + all_moved(fresh(a.vars, b.vars), b.dims, dims),
    }
}

/// Whether all of `vars` have types that are merged.
pub open spec fn supported(vars: Seq<Var>) -> bool {
    forall|i: int| 0 <= i < vars.len() ==> supported_type((#[trigger] vars[i]).xtype)
}

/// Whether the values of all of `vars`, which are variables of `d`, can be counted.
pub open spec fn measurable(d: Dataset, vars: Seq<Var>, type_size: spec_fn(i32) -> usize) -> bool {
    forall|i: int| 0 <= i < vars.len() ==> d.countable(#[trigger] vars[i], type_size)
}

/// Whether everything that merging `a` and `b` gives can be defined: their dimensions are
/// compatible, and the variables have types that are merged.
pub open spec fn definable(a: Dataset, b: Dataset) -> bool {
    &&& compatible(a.dims, b.dims)
    &&& supported(a.vars)
    &&& supported(fresh(a.vars, b.vars))
}

/// Whether the merged dimensions and variables of `a` and `b` can have IDs.
pub open spec fn numberable(a: Dataset, b: Dataset) -> bool {
    &&& first_wins(a.dims, b.dims).len() <= i32::MAX
    &&& first_wins(a.vars, b.vars).len() <= i32::MAX
}

/// Whether `a` and `b` can be merged: everything can be defined, and the values of each variable
/// can be counted where it comes from.
pub open spec fn mergeable(a: Dataset, b: Dataset, type_size: spec_fn(i32) -> usize) -> bool {
    &&& definable(a, b)
    &&& measurable(a, a.vars, type_size)
    &&& measurable(b, fresh(a.vars, b.vars), type_size)
}

// ---- Properties of what is kept.

/// How `fresh` grows with its second argument.
pub proof fn lemma_fresh_step<T: Named>(kept: Seq<T>, others: Seq<T>, i: int)
    requires
        0 <= i < others.len(),
    ensures
        fresh(kept, others.take(i + 1)) == if names(kept).contains(others[i].name()) {
            fresh(kept, others.take(i))
        } else {
            fresh(kept, others.take(i)).push(others[i])
        },
{
    reveal(Seq::filter);
    let longer = others.take(i + 1);
    assert(longer.drop_last() =~= others.take(i));
    assert(longer.last() == others[i]);
}

/// What is fresh among `others` comes from them and is unlike all of `kept`.
pub proof fn lemma_fresh_members<T: Named>(kept: Seq<T>, others: Seq<T>)
    ensures
        fresh(kept, others).len() <= others.len(),
        forall|k: int|
            0 <= k < fresh(kept, others).len() ==> {
                &&& others.contains(#[trigger] fresh(kept, others)[k])
                &&& !names(kept).contains(fresh(kept, others)[k].name())
            },
        forall|i: int|
            0 <= i < others.len() && !names(kept).contains((#[trigger] others[i]).name())
                ==> fresh(kept, others).contains(others[i]),
{
    let p = unlike(kept);
    others.lemma_filter_len(p);
    assert forall|k: int| 0 <= k < fresh(kept, others).len() implies {
        &&& others.contains(#[trigger] fresh(kept, others)[k])
        &&& !names(kept).contains(fresh(kept, others)[k].name())
    } by {
        others.lemma_filter_pred(p, k);
        others.lemma_filter_contains_rev(p, fresh(kept, others)[k]);
    }
    assert forall|i: int|
        0 <= i < others.len() && !names(kept).contains(
            (#[trigger] others[i]).name(),
        ) implies fresh(kept, others).contains(others[i]) by {
        others.lemma_filter_contains(p, i);
    }
}

/// The first things that are kept stay where they are as more come in.
pub proof fn lemma_fresh_prefix<T: Named>(kept: Seq<T>, others: Seq<T>, i: int, j: int)
    requires
        0 <= i <= j <= others.len(),
    ensures
        fresh(kept, others.take(i)).len() <= fresh(kept, others.take(j)).len(),
        fresh(kept, others.take(j)).take(fresh(kept, others.take(i)).len() as int) == fresh(
            kept,
            others.take(i),
        ),
    decreases j - i,
{
    if i < j {
        lemma_fresh_prefix(kept, others, i, j - 1);
        lemma_fresh_step(kept, others, j - 1);
        let short = fresh(kept, others.take(i));
        assert(fresh(kept, others.take(j)).take(short.len() as int) =~= fresh(
            kept,
            others.take(j - 1),
        ).take(short.len() as int));
    } else {
        assert(fresh(kept, others.take(i)).take(fresh(kept, others.take(i)).len() as int) =~= fresh(
            kept,
            others.take(i),
        ));
    }
}

/// Everything is fresh where nothing is kept.
pub proof fn lemma_all_fresh<T: Named>(others: Seq<T>)
    ensures
        fresh(Seq::<T>::empty(), others) == others,
    decreases others.len(),
{
    reveal(Seq::filter);
    if others.len() > 0 {
        lemma_all_fresh(others.drop_last());
        assert(others.drop_last().push(others.last()) =~= others);
        assert(!names(Seq::<T>::empty()).contains(others.last().name()));
    } else {
        assert(fresh(Seq::<T>::empty(), others) =~= others);
    }
}

/// Nothing is added where nothing else comes.
pub proof fn lemma_nothing_fresh<T: Named>(kept: Seq<T>, others: Seq<T>)
    ensures
        first_wins(kept, others.take(0)) == kept,
{
    reveal(Seq::filter);
    assert(first_wins(kept, others.take(0)) =~= kept);
}

/// A name that comes later among well-named things is among those kept so far only if it was
/// kept at first.
pub proof fn lemma_seen<T: Named>(kept: Seq<T>, others: Seq<T>, i: int)
    requires
        names(others).no_duplicates(),
        0 <= i < others.len(),
    ensures
        names(first_wins(kept, others.take(i))).contains(others[i].name()) <==> names(
            kept,
        ).contains(others[i].name()),
{
    let so_far = first_wins(kept, others.take(i));
    let n = others[i].name();
    lemma_fresh_members(kept, others.take(i));
    if names(kept).contains(n) {
        let k = choose|k: int| 0 <= k < names(kept).len() && names(kept)[k] == n;
        assert(so_far[k] == kept[k]);
        assert(names(so_far)[k] == n);
    }
    if names(so_far).contains(n) {
        let k = choose|k: int| 0 <= k < names(so_far).len() && names(so_far)[k] == n;
        if k < kept.len() {
            assert(names(kept)[k] == n);
        } else {
            let x = fresh(kept, others.take(i))[k - kept.len()];
            assert(so_far[k] == x);
            assert(others.take(i).contains(x));
            let m = choose|m: int| 0 <= m < others.take(i).len() && others.take(i)[m] == x;
            assert(names(others)[m] == n);
            assert(names(others)[i] == n);
        }
    }
}

/// Merged things are well named.
pub proof fn lemma_first_wins_named<T: Named>(kept: Seq<T>, others: Seq<T>, i: int)
    requires
        well_named(kept),
        well_named(others),
        0 <= i <= others.len(),
    ensures
        names(first_wins(kept, others.take(i))).no_duplicates(),
        forall|k: int|
            0 <= k < first_wins(kept, others.take(i)).len() ==> valid_utf8(
                #[trigger] first_wins(kept, others.take(i))[k].name(),
            ) && !first_wins(kept, others.take(i))[k].name().contains(0u8),
    decreases i,
{
    let so_far = first_wins(kept, others.take(i));
    if i == 0 {
        lemma_nothing_fresh(kept, others);
    } else {
        lemma_first_wins_named(kept, others, i - 1);
        lemma_fresh_step(kept, others, i - 1);
        lemma_seen(kept, others, i - 1);
        let before = first_wins(kept, others.take(i - 1));
        if names(kept).contains(others[i - 1].name()) {
            assert(so_far =~= before);
        } else {
            assert(so_far =~= before.push(others[i - 1]));
            assert forall|x: int, y: int|
                0 <= x < names(so_far).len() && 0 <= y < names(so_far).len() && x
                    != y implies names(so_far)[x] != names(so_far)[y] by {
                if x < before.len() {
                    assert(names(before)[x] == names(so_far)[x]);
                }
                if y < before.len() {
                    assert(names(before)[y] == names(so_far)[y]);
                }
            }
        }
    }
}

} // verus!
