//! What the models of calls, replies and outcomes say of these.

use vstd::prelude::*;
use vstd::utf8::*;
use crate::format::{checked_texts, opened_texts, Format};
use crate::merge::{Merge, MergeModel};
use crate::names::{c_name, texts};
use crate::protocol::{Answer, Call, Reply, Request, Step};
use crate::store::bytes_or_text;

verus! {

/// The model of a call is the call of the same function with the same arguments.
pub proof fn law_calls(r: Request<'_>)
    ensures
        r is Lock <==> r@ is Lock,
        r matches Request::OpenMem { path, mode, memory } ==> r@ == (Call::OpenMem {
            path: path@,
            mode,
            memory: memory@,
        }),
        r matches Request::CreateMem { path, mode, initial_size } ==> r@ == (Call::CreateMem {
            path: path@,
            mode,
            initial_size,
        }),
        r matches Request::Inq { ncid } ==> r@ == (Call::Inq { ncid }),
        r matches Request::InqDim { ncid, dimid } ==> r@ == (Call::InqDim { ncid, dimid }),
        r matches Request::DefDim { ncid, name, len } ==> r@ == (Call::DefDim {
            ncid,
            name: name@,
            len,
        }),
        r matches Request::InqAttName { ncid, varid, attnum } ==> r@ == (Call::InqAttName {
            ncid,
            varid,
            attnum,
        }),
        r matches Request::CopyAtt { src_ncid, src_varid, name, dst_ncid, dst_varid } ==> r@ == (
        Call::CopyAtt { src_ncid, src_varid, name: name@, dst_ncid, dst_varid }),
        r matches Request::InqVar { ncid, varid } ==> r@ == (Call::InqVar { ncid, varid }),
        r matches Request::DefVar { ncid, name, xtype, dimids } ==> r@ == (Call::DefVar {
            ncid,
            name: name@,
            xtype,
            dimids: dimids@,
        }),
{
}

/// The model of a call is the call of the same function with the same arguments, for the calls
/// that come after all definitions too.
pub proof fn law_later_calls(r: Request<'_>)
    ensures
        r matches Request::EndDef { ncid } ==> r@ == (Call::EndDef { ncid }),
        r matches Request::InqType { ncid, xtype } ==> r@ == (Call::InqType { ncid, xtype }),
        r matches Request::InqDimLen { ncid, dimid } ==> r@ == (Call::InqDimLen { ncid, dimid }),
        r matches Request::GetVarString { ncid, varid, count } ==> r@ == (Call::GetVarString {
            ncid,
            varid,
            count,
        }),
        r matches Request::PutVarString { ncid, varid } ==> r@ == (Call::PutVarString {
            ncid,
            varid,
        }),
        r matches Request::FreeString { count } ==> r@ == (Call::FreeString { count }),
        r matches Request::GetVar { ncid, varid, size } ==> r@ == (Call::GetVar {
            ncid,
            varid,
            size,
        }),
        r matches Request::PutVar { ncid, varid, data } ==> r@ == (Call::PutVar {
            ncid,
            varid,
            data: data@,
        }),
        r matches Request::Close { ncid } ==> r@ == (Call::Close { ncid }),
        r matches Request::CloseMemio { ncid } ==> r@ == (Call::CloseMemio { ncid }),
{
}

/// The names in a call can be C strings where no byte of their UTF-8 form is NUL.
pub proof fn law_names_in_calls(call: Call, name: Seq<char>)
    requires
        call.c_names(),
        ({
            ||| call matches Call::DefDim { ncid, name: n, len } && n == name
            ||| call matches Call::CopyAtt { src_ncid, src_varid, name: n, dst_ncid, dst_varid }
                && n == name
            ||| call matches Call::DefVar { ncid, name: n, xtype, dimids } && n == name
        }),
    ensures
        c_name(name),
        !encode_utf8(name).contains(0u8),
{
}

/// The model of a reply holds everything of it.
pub proof fn law_replies(r: Reply)
    ensures
        r@ == (Answer {
            status: r.status,
            message: r.message@,
            id: r.id,
            ndims: r.ndims,
            nvars: r.nvars,
            natts: r.natts,
            unlimdimid: r.unlimdimid,
            name: r.name@,
            len: r.len,
            xtype: r.xtype,
            dimids: r.dimids@,
            data: r.data@,
        }),
{
}

/// A reply without output parameters has a status and a message, and nothing else.
pub proof fn law_bare_answers(status: i32, message: Seq<char>)
    ensures
        Answer::bare(status, message) == (Answer {
            status,
            message,
            id: (-1) as i32,
            ndims: 0,
            nvars: 0,
            natts: 0,
            unlimdimid: (-1) as i32,
            name: Seq::empty(),
            len: 0,
            xtype: 0,
            dimids: Seq::empty(),
            data: Seq::empty(),
        }),
{
}

/// A merge is finished where its model is, with the same bytes or the same error.
pub proof fn law_outcomes(m: Merge<'_>)
    ensures
        m matches Merge::Running(s) ==> m@ == MergeModel::Running(s@),
        m matches Merge::Finished(Ok(bytes)) ==> m@ == MergeModel::Finished(Ok(bytes@)),
        m matches Merge::Finished(Err(e)) ==> m@ == MergeModel::Finished(Err(e@)),
{
}

/// The model of a step is that of what it comes to.
pub proof fn law_steps<S: View, T: View, E: View>(step: Step<S, T, E>)
    ensures
        step matches Step::More(s) ==> step@ == Step::<S::V, T::V, E::V>::More(s@),
        step matches Step::Done(t) ==> step@ == Step::<S::V, T::V, E::V>::Done(t@),
        step matches Step::Failed(e) ==> step@ == Step::<S::V, T::V, E::V>::Failed(e@),
{
}

/// Results that hold texts or bytes have these for their models, and succeed where these do.
pub proof fn law_results(
    named: Result<String, String>,
    opened: Result<Format, String>,
    found: Result<(), String>,
    answer: Result<Vec<u8>, String>,
)
    ensures
        named matches Ok(s) ==> texts(named) == Ok::<Seq<char>, Seq<char>>(s@),
        named matches Err(e) ==> texts(named) == Err::<Seq<char>, Seq<char>>(e@),
        opened matches Ok(format) ==> opened_texts(opened) == Ok::<Format, Seq<char>>(format),
        opened matches Err(e) ==> opened_texts(opened) == Err::<Format, Seq<char>>(e@),
        found is Ok ==> checked_texts(found) == Ok::<(), Seq<char>>(()),
        found matches Err(e) ==> checked_texts(found) == Err::<(), Seq<char>>(e@),
        answer matches Ok(bytes) ==> bytes_or_text(answer) == Ok::<Seq<u8>, Seq<char>>(bytes@),
        answer matches Err(e) ==> bytes_or_text(answer) == Err::<Seq<u8>, Seq<char>>(e@),
{
}

} // verus!
