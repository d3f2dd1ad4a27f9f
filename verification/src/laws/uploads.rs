//! What holds of uploads and of what is read after them.

use vstd::prelude::*;
use crate::format::checked;
use crate::laws::merging::{can_begin, law_merge, merge_of};
use crate::model::{merged, mergeable, numberable};
use crate::netcdf::World;
use crate::store::{
    acceptable, accepted, combined_answer, max_upload, parts_for, stored, with_part_a, with_part_b,
    PartsModel,
};

verus! {

/// A body that was read is accepted exactly where it is a NetCDF-4 file, as it is and whole; the
/// error is otherwise that of checking it.
pub proof fn law_accepted_bodies(bytes: Seq<u8>, u: Seq<u8>, e: Seq<char>)
    ensures
        accepted(Ok(bytes)) == Ok::<Seq<u8>, Seq<char>>(u) <==> checked(bytes) is Ok && u == bytes,
        accepted(Ok(bytes)) == Err::<Seq<u8>, Seq<char>>(e) <==> checked(bytes) == Err::<
            (),
            Seq<char>,
        >(e),
        acceptable(bytes) <==> checked(bytes) is Ok && bytes.len() <= 1073741824,
        max_upload() == 1073741824,
{
}

/// A body that could not be read is never accepted, and the error ends with the problem.
pub proof fn law_unread_bodies(problem: Seq<char>)
    ensures
        accepted(Err(problem)) == Err::<Seq<u8>, Seq<char>>(
            "Could not read request body: "@ + problem,
        ),
{
}

/// No two bodies are accepted as the same bytes.
pub proof fn law_bodies_stay_apart(x: Seq<u8>, y: Seq<u8>)
    requires
        accepted(Ok(x)) is Ok,
        accepted(Ok(y)) is Ok,
        x != y,
    ensures
        accepted(Ok(x)) != accepted(Ok(y)),
{
}

/// What a merge gave is answered as it is: bytes come only of bytes, and are the same.
pub proof fn law_combined_bytes(
    name: Seq<char>,
    merged: Result<Seq<u8>, Seq<char>>,
    bytes: Seq<u8>,
)
    ensures
        combined_answer(name, merged) == Ok::<Seq<u8>, Seq<char>>(bytes) <==> merged == Ok::<
            Seq<u8>,
            Seq<char>,
        >(bytes),
{
}

/// Every error of a merge is answered by an error that names the request and ends with that error.
pub proof fn law_combined_errors(name: Seq<char>, e: Seq<char>)
    ensures
        combined_answer(name, Err(e)) matches Err(text) && text
            == "Could not combine NetCDF files for name="@ + name + ". Error: "@ + e && text.len()
            >= e.len() && text.skip(text.len() - e.len()) == e,
{
    let text = "Could not combine NetCDF files for name="@ + name + ". Error: "@ + e;
    assert(text.skip(text.len() - e.len()) =~= e);
}

/// What is stored under a name is what the store has for it, and nothing where it has not the
/// name; both parts are to be combined exactly where both are there, part A first.
pub proof fn law_lookups(
    store: Map<Seq<char>, PartsModel>,
    name: Seq<char>,
    a: Seq<u8>,
    b: Seq<u8>,
)
    ensures
        store.contains_key(name) ==> stored(store, name) == store[name],
        !store.contains_key(name) ==> stored(store, name).part_a is None && stored(
            store,
            name,
        ).part_b is None,
        parts_for(store, name) == Ok::<(Seq<u8>, Seq<u8>), Seq<char>>((a, b)) <==> {
            &&& store.contains_key(name)
            &&& store[name].part_a == Some(a)
            &&& store[name].part_b == Some(b)
        },
        store.contains_key(name) && store[name].part_a is None ==> parts_for(store, name) == Err::<
            (Seq<u8>, Seq<u8>),
            Seq<char>,
        >("Part_a is empty for name="@ + name),
        store.contains_key(name) && store[name].part_a is Some && store[name].part_b is None
            ==> parts_for(store, name) == Err::<(Seq<u8>, Seq<u8>), Seq<char>>(
            "Part_b is empty for name="@ + name,
        ),
        !store.contains_key(name) ==> parts_for(store, name) == Err::<
            (Seq<u8>, Seq<u8>),
            Seq<char>,
        >("No upload found for name="@ + name),
{
}

/// An upload adds its name to the store, and no other.
pub proof fn law_names_of_the_store(
    store: Map<Seq<char>, PartsModel>,
    name: Seq<char>,
    bytes: Seq<u8>,
)
    ensures
        with_part_a(store, name, bytes).dom() == store.dom().insert(name),
        with_part_b(store, name, bytes).dom() == store.dom().insert(name),
        with_part_a(store, name, bytes)[name].part_a == Some(bytes),
        with_part_b(store, name, bytes)[name].part_b == Some(bytes),
{
}

/// An upload replaces its own side of its own name: the other side stays, and so does everything
/// under other names.
pub proof fn law_upload_replaces_one_side(
    store: Map<Seq<char>, PartsModel>,
    name: Seq<char>,
    bytes: Seq<u8>,
    other: Seq<char>,
)
    ensures
        stored(with_part_a(store, name, bytes), name) == (PartsModel {
            part_a: Some(bytes),
            part_b: stored(store, name).part_b,
        }),
        stored(with_part_b(store, name, bytes), name) == (PartsModel {
            part_a: stored(store, name).part_a,
            part_b: Some(bytes),
        }),
        other != name ==> {
            &&& with_part_a(store, name, bytes).contains_key(other) == store.contains_key(other)
            &&& with_part_b(store, name, bytes).contains_key(other) == store.contains_key(other)
            &&& stored(with_part_a(store, name, bytes), other) == stored(store, other)
            &&& stored(with_part_b(store, name, bytes), other) == stored(store, other)
            &&& parts_for(with_part_a(store, name, bytes), other) == parts_for(store, other)
            &&& parts_for(with_part_b(store, name, bytes), other) == parts_for(store, other)
        },
{
}

/// Of two uploads of the same side of a name the later one counts.
pub proof fn law_last_upload_counts(
    store: Map<Seq<char>, PartsModel>,
    name: Seq<char>,
    first: Seq<u8>,
    second: Seq<u8>,
)
    ensures
        with_part_a(with_part_a(store, name, first), name, second) == with_part_a(
            store,
            name,
            second,
        ),
        with_part_b(with_part_b(store, name, first), name, second) == with_part_b(
            store,
            name,
            second,
        ),
{
    assert(with_part_a(with_part_a(store, name, first), name, second) =~= with_part_a(
        store,
        name,
        second,
    ));
    assert(with_part_b(with_part_b(store, name, first), name, second) =~= with_part_b(
        store,
        name,
        second,
    ));
}

/// Uploads of part A and of part B can come in either order, under the same name or under two.
pub proof fn law_parts_in_either_order(
    store: Map<Seq<char>, PartsModel>,
    m: Seq<char>,
    a: Seq<u8>,
    n: Seq<char>,
    b: Seq<u8>,
)
    ensures
        with_part_b(with_part_a(store, m, a), n, b) == with_part_a(
            with_part_b(store, n, b),
            m,
            a,
        ),
{
    assert(with_part_b(with_part_a(store, m, a), n, b) =~= with_part_a(
        with_part_b(store, n, b),
        m,
        a,
    ));
}

/// Uploads of the same side under two names can come in either order.
pub proof fn law_names_in_either_order(
    store: Map<Seq<char>, PartsModel>,
    m: Seq<char>,
    x: Seq<u8>,
    n: Seq<char>,
    y: Seq<u8>,
)
    requires
        m != n,
    ensures
        with_part_a(with_part_a(store, m, x), n, y) == with_part_a(
            with_part_a(store, n, y),
            m,
            x,
        ),
        with_part_b(with_part_b(store, m, x), n, y) == with_part_b(
            with_part_b(store, n, y),
            m,
            x,
        ),
{
    assert(with_part_a(with_part_a(store, m, x), n, y) =~= with_part_a(
        with_part_a(store, n, y),
        m,
        x,
    ));
    assert(with_part_b(with_part_b(store, m, x), n, y) =~= with_part_b(
        with_part_b(store, n, y),
        m,
        x,
    ));
}

/// Reading a name fails where it was never used, and where one of its parts is missing.
pub proof fn law_missing_parts(
    store: Map<Seq<char>, PartsModel>,
    name: Seq<char>,
    bytes: Seq<u8>,
)
    requires
        !store.contains_key(name),
    ensures
        parts_for(store, name) == Err::<(Seq<u8>, Seq<u8>), Seq<char>>(
            "No upload found for name="@ + name,
        ),
        parts_for(with_part_a(store, name, bytes), name) == Err::<(Seq<u8>, Seq<u8>), Seq<char>>(
            "Part_b is empty for name="@ + name,
        ),
        parts_for(with_part_b(store, name, bytes), name) == Err::<(Seq<u8>, Seq<u8>), Seq<char>>(
            "Part_a is empty for name="@ + name,
        ),
{
}

/// What is read under a name after both of its parts were uploaded is the file of the two merged
/// datasets.
pub proof fn law_read_after_uploads(
    store: Map<Seq<char>, PartsModel>,
    name: Seq<char>,
    a: Seq<u8>,
    b: Seq<u8>,
    w: World,
)
    requires
        can_begin(a, b, w),
        mergeable((w.files)(a), (w.files)(b), w.type_size),
        numberable((w.files)(a), (w.files)(b)),
        (w.image)(merged((w.files)(a), (w.files)(b))).len() > 0,
    ensures
        parts_for(with_part_b(with_part_a(store, name, a), name, b), name) == Ok::<
            (Seq<u8>, Seq<u8>),
            Seq<char>,
        >((a, b)),
        ({
            let file = (w.image)(merged((w.files)(a), (w.files)(b)));
            &&& merge_of(a, b, w).ends_with(Ok(file))
            &&& combined_answer(name, Ok(file)) == Ok::<Seq<u8>, Seq<char>>(file)
        }),
{
    law_merge(a, b, w);
}

} // verus!
