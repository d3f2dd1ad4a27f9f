//! Reading what an inquiry call found.

use vstd::prelude::*;
use crate::names::{cstr_to_string, name_in, texts};
use crate::protocol::{check_nc, Answer, Part, Reply};
use crate::text::{decimal, i32_text, join2};

verus! {

/// What `nc_inq` found of the dataset that holds `part`: its numbers of dimensions, variables
/// and global attributes, and its unlimited dimension.
pub open spec fn file_counts(r: Answer, part: Part) -> Result<(i32, i32, i32, i32), Seq<char>> {
    if r.ok() {
        Ok((r.ndims, r.nvars, r.natts, r.unlimdimid))
    } else {
        Err(r.failure("Could not inspect file structure for "@ + part.spec_label()))
    }
}

/// The name that `nc_inq_attname` found for the attribute `attnum`.
pub open spec fn att_name(r: Answer, attnum: i32) -> Result<Seq<char>, Seq<char>> {
    if r.ok() {
        name_in(r.name)
    } else {
        Err(r.failure("Could not read attribute name "@ + decimal(attnum as int)))
    }
}

/// The size that `nc_inq_type` found for the type `xtype`.
pub open spec fn type_size(r: Answer, xtype: i32) -> Result<usize, Seq<char>> {
    if r.ok() {
        Ok(r.len)
    } else {
        Err(r.failure("Could not get size for NetCDF type "@ + decimal(xtype as int)))
    }
}

impl Reply {
    /// Whether the call succeeded; its error says in what `context` it was made.
    pub fn check(&self, context: &str) -> (c: Result<(), String>)
        ensures
            c is Ok <==> self@.ok(),
            c matches Err(e) ==> e@ == self@.failure(context@),
            c is Ok <==> self.status == 0,
            c matches Err(e) ==> e@ == context@ + ": "@ + self.message@,
    {
        check_nc(self.status, self.message.as_str(), context)
    }
}

/// Reads the reply to `nc_inq` on the dataset that holds `part`: the numbers of dimensions,
/// variables and global attributes, and the unlimited dimension.
pub fn inquire_file(reply: &Reply, part: Part) -> (counts: Result<(i32, i32, i32, i32), String>)
    ensures
        match counts {
            Ok(c) => file_counts(reply@, part) == Ok::<_, Seq<char>>(c),
            Err(e) => file_counts(reply@, part) == Err::<(i32, i32, i32, i32), _>(e@),
        },
        counts is Ok <==> reply.status == 0,
        counts matches Ok(c) ==> c == (reply.ndims, reply.nvars, reply.natts, reply.unlimdimid),
        counts matches Err(e) ==> e@ == "Could not inspect file structure for "@ + (if part is A {
            "part_a"@
        } else {
            "part_b"@
        }) + ": "@ + reply.message@,
{
    match reply.check(join2("Could not inspect file structure for ", part.label()).as_str()) {
        Ok(()) => Ok((reply.ndims, reply.nvars, reply.natts, reply.unlimdimid)),
        Err(e) => Err(e),
    }
}

/// Reads the reply to `nc_inq_attname` for the attribute `attnum`: its name.
pub fn get_att_name(reply: &Reply, attnum: i32) -> (name: Result<String, String>)
    ensures
        texts(name) == att_name(reply@, attnum),
        reply.status == 0 ==> texts(name) == name_in(reply.name@),
        reply.status != 0 ==> (name matches Err(e) && e@ == "Could not read attribute name "@
            + decimal(attnum as int) + ": "@ + reply.message@),
{
    match reply.check(join2("Could not read attribute name ", i32_text(attnum).as_str()).as_str()) {
        Ok(()) => cstr_to_string(reply.name.as_slice()),
        Err(e) => Err(e),
    }
}

/// Reads the reply to `nc_inq_type` for the type `xtype`: the size of one element in bytes.
pub fn nc_type_size(reply: &Reply, xtype: i32) -> (size: Result<usize, String>)
    ensures
        match size {
            Ok(n) => type_size(reply@, xtype) == Ok::<_, Seq<char>>(n),
            Err(e) => type_size(reply@, xtype) == Err::<usize, _>(e@),
        },
        size is Ok <==> reply.status == 0,
        size matches Ok(n) ==> n == reply.len,
        size matches Err(e) ==> e@ == "Could not get size for NetCDF type "@ + decimal(
            xtype as int,
        ) + ": "@ + reply.message@,
{
    match reply.check(
        join2("Could not get size for NetCDF type ", i32_text(xtype).as_str()).as_str(),
    ) {
        Ok(()) => Ok(reply.len),
        Err(e) => Err(e),
    }
}

} // verus!
