//! The calls that a merge asks of NetCDF-C and the replies that it gets.
//!
//! A merge never calls NetCDF-C itself. It says which call comes next, as a [`Request`], and goes
//! on from the [`Reply`]: the status that the call returned and what its output parameters held.

use vstd::prelude::*;
use crate::names::c_name;
use crate::text::join3;

verus! {

/// Status of a call that succeeded.
pub const NC_NOERR: i32 = 0;

/// Mode that opens a dataset for reading.
pub const NC_NOWRITE: i32 = 0;

/// Mode that creates a dataset in the NetCDF-4 format.
pub const NC_NETCDF4: i32 = 4096;

/// Variable ID that stands for the dataset itself where attributes are concerned.
pub const NC_GLOBAL: i32 = -1;

/// Type ID of signed 1-byte integers.
pub const NC_BYTE: i32 = 1;

/// Type ID of characters.
pub const NC_CHAR: i32 = 2;

/// Type ID of signed 2-byte integers.
pub const NC_SHORT: i32 = 3;

/// Type ID of signed 4-byte integers.
pub const NC_INT: i32 = 4;

/// Type ID of single-precision floating-point numbers.
pub const NC_FLOAT: i32 = 5;

/// Type ID of double-precision floating-point numbers.
pub const NC_DOUBLE: i32 = 6;

/// Type ID of unsigned 1-byte integers.
pub const NC_UBYTE: i32 = 7;

/// Type ID of unsigned 2-byte integers.
pub const NC_USHORT: i32 = 8;

/// Type ID of unsigned 4-byte integers.
pub const NC_UINT: i32 = 9;

/// Type ID of signed 8-byte integers.
pub const NC_INT64: i32 = 10;

/// Type ID of unsigned 8-byte integers.
pub const NC_UINT64: i32 = 11;

/// Type ID of strings.
pub const NC_STRING: i32 = 12;

/// One of the two files that a merge combines.
#[derive(Clone, Copy, Debug, PartialEq, Eq, Structural)]
pub enum Part {
    A,
    B,
}

impl Part {
    /// What error messages call the part.
    pub open spec fn spec_label(self) -> Seq<char> {
        match self {
            Part::A => "part_a"@,
            Part::B => "part_b"@,
        }
    }

    /// What error messages call the part.
    pub fn label(self) -> (l: &'static str)
        ensures
            l@ == self.spec_label(),
            self is A ==> l@ == "part_a"@,
            self is B ==> l@ == "part_b"@,
    {
        match self {
            Part::A => "part_a",
            Part::B => "part_b",
        }
    }
}

/// A call that a merge asks for.
///
/// Every variant but `Lock` is a call of the NetCDF-C function of that name, with the arguments
/// that the variant holds.
#[derive(Clone, Copy, Debug, PartialEq, Eq)]
pub enum Request<'r> {
    /// Take the lock that keeps all other merges out of NetCDF-C. It is held until the merge is
    /// finished.
    Lock,
    /// `nc_open_mem`
    OpenMem { path: &'static str, mode: i32, memory: &'r [u8] },
    /// `nc_create_mem`
    CreateMem { path: &'static str, mode: i32, initial_size: usize },
    /// `nc_inq`
    Inq { ncid: i32 },
    /// `nc_inq_dim`
    InqDim { ncid: i32, dimid: i32 },
    /// `nc_def_dim`
    DefDim { ncid: i32, name: &'r str, len: usize },
    /// `nc_inq_attname`
    InqAttName { ncid: i32, varid: i32, attnum: i32 },
    /// `nc_copy_att`
    CopyAtt { src_ncid: i32, src_varid: i32, name: &'r str, dst_ncid: i32, dst_varid: i32 },
    /// `nc_inq_var`
    InqVar { ncid: i32, varid: i32 },
    /// `nc_def_var`
    DefVar { ncid: i32, name: &'r str, xtype: i32, dimids: &'r [i32] },
    /// `nc_enddef`
    EndDef { ncid: i32 },
    /// `nc_inq_type`
    InqType { ncid: i32, xtype: i32 },
    /// `nc_inq_dimlen`
    InqDimLen { ncid: i32, dimid: i32 },
    /// `nc_get_var_string` into `count` string pointers, which whoever makes the call keeps.
    GetVarString { ncid: i32, varid: i32, count: usize },
    /// `nc_put_var_string` of the string pointers that were kept.
    PutVarString { ncid: i32, varid: i32 },
    /// `nc_free_string` of the `count` string pointers that were kept.
    FreeString { count: usize },
    /// `nc_get_var` into a buffer of `size` bytes.
    GetVar { ncid: i32, varid: i32, size: usize },
    /// `nc_put_var`
    PutVar { ncid: i32, varid: i32, data: &'r [u8] },
    /// `nc_close`
    Close { ncid: i32 },
    /// `nc_close_memio`
    CloseMemio { ncid: i32 },
}

/// The model of a [`Request`].
#[verifier::ext_equal]
pub enum Call {
    Lock,
    OpenMem { path: Seq<char>, mode: i32, memory: Seq<u8> },
    CreateMem { path: Seq<char>, mode: i32, initial_size: usize },
    Inq { ncid: i32 },
    InqDim { ncid: i32, dimid: i32 },
    DefDim { ncid: i32, name: Seq<char>, len: usize },
    InqAttName { ncid: i32, varid: i32, attnum: i32 },
    CopyAtt { src_ncid: i32, src_varid: i32, name: Seq<char>, dst_ncid: i32, dst_varid: i32 },
    InqVar { ncid: i32, varid: i32 },
    DefVar { ncid: i32, name: Seq<char>, xtype: i32, dimids: Seq<i32> },
    EndDef { ncid: i32 },
    InqType { ncid: i32, xtype: i32 },
    InqDimLen { ncid: i32, dimid: i32 },
    GetVarString { ncid: i32, varid: i32, count: usize },
    PutVarString { ncid: i32, varid: i32 },
    FreeString { count: usize },
    GetVar { ncid: i32, varid: i32, size: usize },
    PutVar { ncid: i32, varid: i32, data: Seq<u8> },
    Close { ncid: i32 },
    CloseMemio { ncid: i32 },
}

impl<'r> View for Request<'r> {
    type V = Call;

    open spec fn view(&self) -> Call {
        match *self {
            Request::Lock => Call::Lock,
            Request::OpenMem { path, mode, memory } => Call::OpenMem {
                path: path@,
                mode,
                memory: memory@,
            },
            Request::CreateMem { path, mode, initial_size } => Call::CreateMem {
                path: path@,
                mode,
                initial_size,
            },
            Request::Inq { ncid } => Call::Inq { ncid },
            Request::InqDim { ncid, dimid } => Call::InqDim { ncid, dimid },
            Request::DefDim { ncid, name, len } => Call::DefDim { ncid, name: name@, len },
            Request::InqAttName { ncid, varid, attnum } => Call::InqAttName {
                ncid,
                varid,
                attnum,
            },
            Request::CopyAtt { src_ncid, src_varid, name, dst_ncid, dst_varid } => Call::CopyAtt {
                src_ncid,
                src_varid,
                name: name@,
                dst_ncid,
                dst_varid,
            },
            Request::InqVar { ncid, varid } => Call::InqVar { ncid, varid },
            Request::DefVar { ncid, name, xtype, dimids } => Call::DefVar {
                ncid,
                name: name@,
                xtype,
                dimids: dimids@,
            },
            Request::EndDef { ncid } => Call::EndDef { ncid },
            Request::InqType { ncid, xtype } => Call::InqType { ncid, xtype },
            Request::InqDimLen { ncid, dimid } => Call::InqDimLen { ncid, dimid },
            Request::GetVarString { ncid, varid, count } => Call::GetVarString {
                ncid,
                varid,
                count,
            },
            Request::PutVarString { ncid, varid } => Call::PutVarString { ncid, varid },
            Request::FreeString { count } => Call::FreeString { count },
            Request::GetVar { ncid, varid, size } => Call::GetVar { ncid, varid, size },
            Request::PutVar { ncid, varid, data } => Call::PutVar { ncid, varid, data: data@ },
            Request::Close { ncid } => Call::Close { ncid },
            Request::CloseMemio { ncid } => Call::CloseMemio { ncid },
        }
    }
}

impl Call {
    /// Whether every name that the call hands over can be a C string.
    pub open spec fn c_names(self) -> bool {
        match self {
            Call::DefDim { ncid, name, len } => c_name(name),
            Call::CopyAtt { src_ncid, src_varid, name, dst_ncid, dst_varid } => c_name(name),
            Call::DefVar { ncid, name, xtype, dimids } => c_name(name),
            _ => true,
        }
    }
}

/// What came of a call: its status, and what its output parameters held afterwards.
///
/// A call has few of the output parameters; the fields that stand for the others are not read.
#[derive(Debug)]
pub struct Reply {
    /// The status that the call returned; for `Lock`, `NC_NOERR` where the lock was obtained.
    pub status: i32,
    /// What `nc_strerror` says of the status.
    pub message: String,
    /// The ID of the dataset, dimension or variable that was opened, created or defined.
    pub id: i32,
    /// The number of dimensions of a dataset.
    pub ndims: i32,
    /// The number of variables of a dataset.
    pub nvars: i32,
    /// The number of attributes of a dataset or of a variable.
    pub natts: i32,
    /// The ID of the unlimited dimension of a dataset, or -1 where it has none.
    pub unlimdimid: i32,
    /// The buffer that received a name as a C string.
    pub name: Vec<u8>,
    /// The length of a dimension or the size of a type.
    pub len: usize,
    /// The type of a variable.
    pub xtype: i32,
    /// The dimensions of a variable.
    pub dimids: Vec<i32>,
    /// The values of a variable, or the memory that held a dataset; empty where NetCDF-C gave
    /// no memory.
    pub data: Vec<u8>,
}

/// The model of a [`Reply`].
#[verifier::ext_equal]
pub struct Answer {
    pub status: i32,
    pub message: Seq<char>,
    pub id: i32,
    pub ndims: i32,
    pub nvars: i32,
    pub natts: i32,
    pub unlimdimid: i32,
    pub name: Seq<u8>,
    pub len: usize,
    pub xtype: i32,
    pub dimids: Seq<i32>,
    pub data: Seq<u8>,
}

impl View for Reply {
    type V = Answer;

    open spec fn view(&self) -> Answer {
        Answer {
            status: self.status,
            message: self.message@,
            id: self.id,
            ndims: self.ndims,
            nvars: self.nvars,
            natts: self.natts,
            unlimdimid: self.unlimdimid,
            name: self.name@,
            len: self.len,
            xtype: self.xtype,
            dimids: self.dimids@,
            data: self.data@,
        }
    }
}

impl Answer {
    /// The answer of a call that has no output parameters, or left them alone.
    pub open spec fn bare(status: i32, message: Seq<char>) -> Answer {
        Answer {
            status,
            message,
            id: (-1) as i32,
            ndims: 0,
            nvars: 0,
            natts: 0,
            unlimdimid: (-1) as i32,
            name: Seq::empty(),
            len: 0,
            xtype: 0,
            dimids: Seq::empty(),
            data: Seq::empty(),
        }
    }

    /// Whether the call succeeded.
    pub open spec fn ok(self) -> bool {
        self.status == NC_NOERR
    }

    /// The message of a failed call, in the context of what it was made for.
    pub open spec fn failure(self, context: Seq<char>) -> Seq<char> {
        failure_text(context, self.message)
    }
}

impl Reply {
    /// The reply of a call that has no output parameters, or left them alone.
    pub fn bare(status: i32, message: String) -> (r: Reply)
        ensures
            r@ == Answer::bare(status, message@),
            r.status == status,
            r.message@ == message@,
            r.id == -1,
            r.ndims == 0,
            r.nvars == 0,
            r.natts == 0,
            r.unlimdimid == -1,
            r.name@.len() == 0,
            r.len == 0,
            r.xtype == 0,
            r.dimids@.len() == 0,
            r.data@.len() == 0,
    {
        Reply {
            status,
            message,
            id: -1,
            ndims: 0,
            nvars: 0,
            natts: 0,
            unlimdimid: -1,
            name: Vec::new(),
            len: 0,
            xtype: 0,
            dimids: Vec::new(),
            data: Vec::new(),
        }
    }
}

/// The error of a failed call: what was being done, then what NetCDF-C says of the status.
pub open spec fn failure_text(context: Seq<char>, message: Seq<char>) -> Seq<char> {
    context + ": "@ + message
}

/// Whether variables of the type `xtype` are merged: the fixed-width numbers, the characters
/// and the strings.
pub open spec fn supported_type(xtype: i32) -> bool {
    NC_BYTE <= xtype <= NC_STRING
}

/// What a computation comes to that goes on from one reply: it needs another one, is done, or
/// has failed.
#[verifier::ext_equal]
pub enum Step<S, T, E> {
    More(S),
    Done(T),
    Failed(E),
}

impl<S: View, T: View, E: View> View for Step<S, T, E> {
    type V = Step<S::V, T::V, E::V>;

    open spec fn view(&self) -> Step<S::V, T::V, E::V> {
        match *self {
            Step::More(s) => Step::More(s@),
            Step::Done(t) => Step::Done(t@),
            Step::Failed(e) => Step::Failed(e@),
        }
    }
}

/// Turns the status of a call into a result: `message` is what NetCDF-C says of the status and
/// `context` says what was being done.
pub fn check_nc(status: i32, message: &str, context: &str) -> (r: Result<(), String>)
    ensures
        r is Ok <==> status == NC_NOERR,
        r matches Err(e) ==> e@ == failure_text(context@, message@),
        r is Ok <==> status == 0,
        r matches Err(e) ==> e@ == context@ + ": "@ + message@,
{
    if status == NC_NOERR {
        Ok(())
    } else {
        Err(join3(context, ": ", message))
    }
}

/// Whether variables of the type `xtype` are merged.
pub fn is_supported_atomic_type(xtype: i32) -> (r: bool)
    ensures
        r == supported_type(xtype),
        r <==> 1 <= xtype <= 12,
{
    xtype == NC_BYTE || xtype == NC_CHAR || xtype == NC_SHORT || xtype == NC_INT || xtype
        == NC_FLOAT || xtype == NC_DOUBLE || xtype == NC_UBYTE || xtype == NC_USHORT || xtype
        == NC_UINT || xtype == NC_INT64 || xtype == NC_UINT64 || xtype == NC_STRING
}

} // verus!
