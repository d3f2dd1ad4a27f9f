//! How a merge runs against the model of NetCDF-C, phase by phase.

pub mod atts;
pub mod data;
pub mod dims;
pub mod vars;
pub mod whole;

use vstd::prelude::*;
use vstd::utf8::*;
use crate::model::{names, Att, Named};
use crate::names::{c_bytes, name_in};
use crate::netcdf::att_at;

verus! {

/// Whether `n` is a name that NetCDF can hold: UTF-8 without NUL.
pub open spec fn good_name(n: Seq<u8>) -> bool {
    valid_utf8(n) && !n.contains(0u8)
}

/// A name survives the way through a buffer and back, whatever comes after it in the buffer.
pub proof fn lemma_name_round_trip(n: Seq<u8>)
    requires
        good_name(n),
    ensures
        forall|rest: Seq<u8>| #[trigger]
            name_in(n.push(0u8) + rest) == Ok::<Seq<char>, Seq<char>>(decode_utf8(n)),
        encode_utf8(decode_utf8(n)) == n,
{
    assert forall|rest: Seq<u8>| #[trigger]
        name_in(n.push(0u8) + rest) == Ok::<Seq<char>, Seq<char>>(decode_utf8(n)) by {
        let buf = n.push(0u8) + rest;
        buf.index_of_first_ensures(0u8);
        assert(buf[n.len() as int] == 0u8);
        assert(buf.contains(0u8));
        let end = buf.index_of_first(0u8)->0;
        assert(end == n.len()) by {
            if end < n.len() {
                assert(n[end] == buf[end]);
                assert(n.contains(0u8));
            }
        }
        assert(c_bytes(buf) =~= n);
    }
    decode_utf8_encode_utf8(n);
}

/// Names are alike where their texts are.
pub proof fn lemma_same_text(m: Seq<u8>, n: Seq<u8>)
    requires
        valid_utf8(m),
        valid_utf8(n),
    ensures
        decode_utf8(m) == decode_utf8(n) <==> m == n,
{
    decode_utf8_encode_utf8(m);
    decode_utf8_encode_utf8(n);
}

/// The names of `xs` as texts.
pub open spec fn name_texts<T: Named>(xs: Seq<T>) -> Set<Seq<char>> {
    Set::new(
        |t: Seq<char>|
            exists|k: int| 0 <= k < xs.len() && #[trigger] decode_utf8(xs[k].name()) == t,
    )
}

/// A name is among those of `xs` where its text is.
pub proof fn lemma_name_texts<T: Named>(xs: Seq<T>, n: Seq<u8>)
    requires
        forall|k: int| 0 <= k < xs.len() ==> good_name(#[trigger] xs[k].name()),
        good_name(n),
    ensures
        name_texts(xs).contains(decode_utf8(n)) <==> names(xs).contains(n),
{
    if names(xs).contains(n) {
        let k = choose|k: int| 0 <= k < names(xs).len() && names(xs)[k] == n;
        assert(decode_utf8(xs[k].name()) == decode_utf8(n));
    }
    if name_texts(xs).contains(decode_utf8(n)) {
        let k = choose|k: int|
            0 <= k < xs.len() && #[trigger] decode_utf8(xs[k].name()) == decode_utf8(n);
        assert(good_name(xs[k].name()));
        lemma_same_text(xs[k].name(), n);
        assert(names(xs)[k] == n);
    }
}

/// One more name is one more text.
pub proof fn lemma_name_texts_push<T: Named>(xs: Seq<T>, x: T)
    ensures
        name_texts(xs.push(x)) == name_texts(xs).insert(decode_utf8(x.name())),
{
    let more = xs.push(x);
    assert forall|t: Seq<char>|
        name_texts(more).contains(t) <==> name_texts(xs).insert(
            decode_utf8(x.name()),
        ).contains(t) by {
        if name_texts(more).contains(t) {
            let k = choose|k: int|
                0 <= k < more.len() && #[trigger] decode_utf8(more[k].name()) == t;
            if k < xs.len() {
                assert(decode_utf8(xs[k].name()) == t);
            }
        }
        if name_texts(xs).contains(t) {
            let k = choose|k: int| 0 <= k < xs.len() && #[trigger] decode_utf8(xs[k].name()) == t;
            assert(decode_utf8(more[k].name()) == t);
        }
        if t == decode_utf8(x.name()) {
            assert(decode_utf8(more[xs.len() as int].name()) == t);
        }
    }
    assert(name_texts(more) =~= name_texts(xs).insert(decode_utf8(x.name())));
}

/// An attribute is where it is found by its name.
pub proof fn lemma_att_at(atts: Seq<Att>, k: int)
    requires
        names(atts).no_duplicates(),
        0 <= k < atts.len(),
    ensures
        att_at(atts, atts[k].name) == k,
        names(atts).contains(atts[k].name),
{
    let f = att_at(atts, atts[k].name);
    assert(atts[f].name == atts[k].name);
    assert(names(atts)[f] == names(atts)[k]);
}

} // verus!
