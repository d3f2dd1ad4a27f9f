//! The copying of global attributes.

use vstd::prelude::*;
use crate::attributes::AttState;
use crate::merge::{MergeStage, MergeState};
use crate::model::{
    first_wins, lemma_first_wins_named, lemma_fresh_step, lemma_nothing_fresh, lemma_seen, names,
    well_named, Att, Dataset, Named,
};
use crate::netcdf::{
    lemma_reaches_self, lemma_reaches_step, lemma_reaches_trans, running, Config, World,
};
use crate::protocol::Part;
use crate::runs::{
    good_name, lemma_att_at, lemma_name_round_trip, lemma_name_texts, lemma_name_texts_push,
    name_texts,
};

verus! {

/// The copying of the global attributes `xs` after the first `i` of them, where the output had
/// the attributes `kept` before. `s` and `w` say how everything else stands.
pub open spec fn atts_at(
    s: MergeState,
    w: World,
    part: Part,
    src: i32,
    dst: i32,
    kept: Seq<Att>,
    xs: Seq<Att>,
    i: int,
) -> Config {
    let so_far = first_wins(kept, xs.take(i));
    Config {
        merge: MergeState { copied_atts: name_texts(so_far), ..s }.after_atts(
            part,
            AttState::start(part, src, dst).at_att(xs.len() as i32, i),
        ),
        world: w.put(dst, Dataset { atts: so_far, ..w.open[dst] }),
    }
}

/// Whether the global attributes `xs` of the dataset `src` can be copied to `dst`.
pub open spec fn atts_ready(w: World, src: i32, dst: i32, kept: Seq<Att>, xs: Seq<Att>) -> bool {
    &&& w.open.contains_key(src)
    &&& w.open.contains_key(dst)
    &&& src != dst
    &&& w.open[src].atts == xs
    &&& w.defining == Some(dst)
    &&& well_named(kept)
    &&& well_named(xs)
}

/// One attribute is copied or skipped.
proof fn lemma_atts_step(
    s: MergeState,
    w: World,
    part: Part,
    src: i32,
    dst: i32,
    kept: Seq<Att>,
    xs: Seq<Att>,
    i: int,
)
    requires
        atts_ready(w, src, dst, kept, xs),
        0 <= i < xs.len(),
    ensures
        atts_at(s, w, part, src, dst, kept, xs, i).reaches(
            atts_at(s, w, part, src, dst, kept, xs, i + 1),
        ),
{
    let c = atts_at(s, w, part, src, dst, kept, xs, i);
    let goal = atts_at(s, w, part, src, dst, kept, xs, i + 1);
    let so_far = first_wins(kept, xs.take(i));
    let n = xs[i].name;
    assert(good_name(xs[i].name()));
    lemma_name_round_trip(n);
    lemma_first_wins_named(kept, xs, i);
    lemma_seen(kept, xs, i);
    lemma_fresh_step(kept, xs, i);
    assert forall|k: int| 0 <= k < so_far.len() implies good_name(#[trigger] so_far[k].name()) by {}
    lemma_name_texts(so_far, n);
    if names(kept).contains(n) {
        assert(first_wins(kept, xs.take(i + 1)) =~= so_far);
        assert(c.step() =~= goal);
        lemma_reaches_self(goal);
        lemma_reaches_step(c, goal);
    } else {
        assert(first_wins(kept, xs.take(i + 1)) =~= so_far.push(xs[i]));
        lemma_name_texts_push(so_far, xs[i]);
        lemma_att_at(xs, i);
        let d = c.step();
        assert(d.world =~= c.world);
        assert(d.step().world.open =~= goal.world.open);
        assert(d.step() =~= goal);
        lemma_reaches_self(goal);
        lemma_reaches_step(d, goal);
        lemma_reaches_step(c, goal);
    }
}

/// The first `j` attributes are copied or skipped.
proof fn lemma_atts_some(
    s: MergeState,
    w: World,
    part: Part,
    src: i32,
    dst: i32,
    kept: Seq<Att>,
    xs: Seq<Att>,
    j: int,
)
    requires
        atts_ready(w, src, dst, kept, xs),
        0 <= j <= xs.len(),
    ensures
        atts_at(s, w, part, src, dst, kept, xs, 0).reaches(
            atts_at(s, w, part, src, dst, kept, xs, j),
        ),
    decreases j,
{
    let start = atts_at(s, w, part, src, dst, kept, xs, 0);
    if j == 0 {
        lemma_reaches_self(start);
    } else {
        lemma_atts_some(s, w, part, src, dst, kept, xs, j - 1);
        lemma_atts_step(s, w, part, src, dst, kept, xs, j - 1);
        lemma_reaches_trans(
            start,
            atts_at(s, w, part, src, dst, kept, xs, j - 1),
            atts_at(s, w, part, src, dst, kept, xs, j),
        );
    }
}

/// All attributes are copied or skipped.
pub proof fn lemma_atts_run(
    s: MergeState,
    w: World,
    part: Part,
    src: i32,
    dst: i32,
    kept: Seq<Att>,
    xs: Seq<Att>,
)
    requires
        atts_ready(w, src, dst, kept, xs),
        s.stage == MergeStage::Atts(AttState::start(part, src, dst)),
        s.copied_atts == name_texts(kept),
        w.open[dst].atts == kept,
    ensures
        running(s, w).reaches(atts_at(s, w, part, src, dst, kept, xs, xs.len() as int)),
{
    let c = running(s, w);
    let begun = atts_at(s, w, part, src, dst, kept, xs, 0);
    lemma_nothing_fresh(kept, xs);
    assert(begun.world.open =~= w.open);
    assert(c.step() =~= begun);
    lemma_atts_some(s, w, part, src, dst, kept, xs, xs.len() as int);
    lemma_reaches_step(c, atts_at(s, w, part, src, dst, kept, xs, xs.len() as int));
}

} // verus!
