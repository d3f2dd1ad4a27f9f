//! What holds of numerals, of names and of what replies are read as.

use vstd::prelude::*;
use vstd::utf8::*;
use crate::inquiry::{att_name, file_counts, type_size};
use crate::names::{c_bytes, name_in, utf8_error_text};
use crate::protocol::{
    failure_text, supported_type, Answer, Part, NC_BYTE, NC_CHAR, NC_DOUBLE, NC_FLOAT, NC_GLOBAL,
    NC_INT, NC_INT64, NC_NETCDF4, NC_NOERR, NC_NOWRITE, NC_SHORT, NC_STRING, NC_UBYTE, NC_UINT,
    NC_UINT64, NC_USHORT,
};
use crate::text::{decimal, digit, digits};

verus! {

/// The number that a row of decimal digits stands for.
pub open spec fn number(t: Seq<char>) -> int
    decreases t.len(),
{
    if t.len() == 0 {
        0
    } else {
        number(t.drop_last()) * 10 + (t.last() as int - 48)
    }
}

/// A numeral is a row of decimal digits that stands for its number, without a zero in front, and
/// with a minus sign before it where the number is negative.
pub proof fn law_numerals(n: nat)
    ensures
        number(decimal(n as int)) == n,
        decimal(n as int).len() > 0,
        forall|i: int|
            0 <= i < decimal(n as int).len() ==> 48 <= #[trigger] decimal(n as int)[i] <= 57,
        n == 0 ==> decimal(n as int) == seq!['0'],
        n > 0 ==> decimal(n as int)[0] != '0',
        n > 0 ==> decimal(-n) == seq!['-'] + decimal(n as int),
{
    lemma_digits(n);
}

/// The digits of a number.
proof fn lemma_digits(n: nat)
    ensures
        number(digits(n)) == n,
        digits(n).len() > 0,
        forall|i: int| 0 <= i < digits(n).len() ==> 48 <= #[trigger] digits(n)[i] <= 57,
        n == 0 ==> digits(n) == seq!['0'],
        n > 0 ==> digits(n)[0] != '0',
    decreases n,
{
    if n < 10 {
        let t = digits(n);
        assert(t.drop_last() =~= Seq::<char>::empty());
        assert(number(t.drop_last()) == 0);
        assert(t.last() == digit(n));
        assert(n == 0 ==> digits(n) =~= seq!['0']);
    } else {
        lemma_digits(n / 10);
        let t = digits(n);
        assert(t.drop_last() =~= digits(n / 10));
        assert(t.last() == digit(n % 10));
        assert(t[0] == digits(n / 10)[0]);
    }
}

/// A name that is read from a buffer is all that stands before the first NUL, whatever comes after
/// that, and everything where there is no NUL.
pub proof fn law_name_ends_at_nul(n: Seq<u8>, rest: Seq<u8>)
    requires
        !n.contains(0u8),
    ensures
        valid_utf8(n) ==> name_in(n + seq![0u8] + rest) == Ok::<Seq<char>, Seq<char>>(
            decode_utf8(n),
        ),
        !valid_utf8(n) ==> name_in(n + seq![0u8] + rest) == Err::<Seq<char>, Seq<char>>(
            "Invalid UTF-8 from NetCDF name: "@ + utf8_error_text(n),
        ),
        name_in(n) == name_in(n + seq![0u8] + rest),
{
    let buf = n + seq![0u8] + rest;
    buf.index_of_first_ensures(0u8);
    n.index_of_first_ensures(0u8);
    assert(buf[n.len() as int] == 0u8);
    assert(buf.contains(0u8));
    let end = buf.index_of_first(0u8)->0;
    assert(end == n.len()) by {
        if end < n.len() {
            assert(n[end] == buf[end]);
            assert(n.contains(0u8));
        }
    }
    assert(c_bytes(buf) =~= n);
}

/// Every buffer holds a name, which ends at the first NUL or at the end of the buffer.
pub proof fn law_every_buffer_holds_a_name(buf: Seq<u8>) -> (n: Seq<u8>)
    ensures
        n.len() <= buf.len(),
        n == buf.take(n.len() as int),
        !n.contains(0u8),
        n.len() < buf.len() ==> buf[n.len() as int] == 0u8,
        name_in(buf) == name_in(n),
{
    buf.index_of_first_ensures(0u8);
    if buf.contains(0u8) {
        let end = buf.index_of_first(0u8)->0;
        let n = buf.take(end);
        let rest = buf.skip(end + 1);
        assert(buf =~= n + seq![0u8] + rest);
        assert(!n.contains(0u8));
        law_name_ends_at_nul(n, rest);
        n
    } else {
        assert(buf =~= buf.take(buf.len() as int));
        buf
    }
}

/// The types that are merged are the twelve that NetCDF numbers from one on.
pub proof fn law_merged_types(xtype: i32)
    ensures
        supported_type(xtype) <==> xtype == 1 || xtype == 2 || xtype == 3 || xtype == 4 || xtype
            == 5 || xtype == 6 || xtype == 7 || xtype == 8 || xtype == 9 || xtype == 10 || xtype
            == 11 || xtype == 12,
        supported_type(xtype) <==> xtype == NC_BYTE || xtype == NC_CHAR || xtype == NC_SHORT
            || xtype == NC_INT || xtype == NC_FLOAT || xtype == NC_DOUBLE || xtype == NC_UBYTE
            || xtype == NC_USHORT || xtype == NC_UINT || xtype == NC_INT64 || xtype == NC_UINT64
            || xtype == NC_STRING,
        NC_STRING == 12,
        NC_NOERR == 0,
        NC_NOWRITE == 0,
        NC_NETCDF4 == 4096,
        NC_GLOBAL == -1,
{
}

/// The error of a failed call is its context, a colon and the message of NetCDF-C, and a call has
/// failed where its status is not zero.
pub proof fn law_failures(r: Answer, context: Seq<char>)
    ensures
        r.failure(context) == context + ": "@ + r.message,
        failure_text(context, r.message) == context + ": "@ + r.message,
        r.ok() <==> r.status == 0,
        Part::A.spec_label() == "part_a"@,
        Part::B.spec_label() == "part_b"@,
{
}

/// What an inquiry found is what its output parameters hold, and nothing else matters.
pub proof fn law_inquiries(r: Answer, part: Part, attnum: i32, xtype: i32)
    ensures
        r.status == 0 ==> {
            &&& file_counts(r, part) == Ok::<(i32, i32, i32, i32), Seq<char>>(
                (r.ndims, r.nvars, r.natts, r.unlimdimid),
            )
            &&& att_name(r, attnum) == name_in(r.name)
            &&& type_size(r, xtype) == Ok::<usize, Seq<char>>(r.len)
        },
        r.status != 0 ==> {
            &&& part is A ==> file_counts(r, part) == Err::<(i32, i32, i32, i32), Seq<char>>(
                "Could not inspect file structure for "@ + "part_a"@ + ": "@ + r.message,
            )
            &&& part is B ==> file_counts(r, part) == Err::<(i32, i32, i32, i32), Seq<char>>(
                "Could not inspect file structure for "@ + "part_b"@ + ": "@ + r.message,
            )
            &&& att_name(r, attnum) == Err::<Seq<char>, Seq<char>>(
                "Could not read attribute name "@ + decimal(attnum as int) + ": "@ + r.message,
            )
            &&& type_size(r, xtype) == Err::<usize, Seq<char>>(
                "Could not get size for NetCDF type "@ + decimal(xtype as int) + ": "@ + r.message,
            )
        },
{
}

} // verus!
