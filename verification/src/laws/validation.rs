//! What holds of the verdict on an upload.

use vstd::arithmetic::power2::pow2;
use vstd::prelude::*;
use crate::format::{
    checked, classic_version, has_hdf5_signature, hdf5_signature_at, hdf5_verdict, is_hdf5,
    is_netcdf4, opened_format, opened_netcdf4, signature_error, verdict, Format,
};
use crate::text::decimal;

verus! {

/// An HDF5 file is accepted exactly where it can be opened as a NetCDF-4 file, and the error is
/// otherwise that of opening it: nothing else about the file matters.
pub proof fn law_hdf5_uploads(bytes: Seq<u8>)
    requires
        is_hdf5(bytes),
    ensures
        checked(bytes) is Ok <==> opened_netcdf4(bytes) is Ok,
        is_netcdf4(bytes) <==> opened_netcdf4(bytes) is Ok,
        opened_netcdf4(bytes) matches Err(e) ==> checked(bytes) == Err::<(), Seq<char>>(
            "Could not open uploaded bytes as NetCDF: "@ + e,
        ),
{
}

/// What is no HDF5 file is accepted exactly where opening it finds one of the two NetCDF-4
/// formats, and the error otherwise says what opening it gave.
pub proof fn law_other_uploads(bytes: Seq<u8>)
    requires
        !is_hdf5(bytes),
    ensures
        checked(bytes) is Ok <==> opened_format(bytes) == Ok::<Format, Seq<char>>(Format::Nc4)
            || opened_format(bytes) == Ok::<Format, Seq<char>>(Format::Nc4Classic),
        is_netcdf4(bytes) <==> checked(bytes) is Ok,
        opened_format(bytes) matches Err(e) ==> checked(bytes) == Err::<(), Seq<char>>(
            "Could not open uploaded bytes as NetCDF: "@ + e,
        ),
        opened_format(bytes) == Ok::<Format, Seq<char>>(Format::Classic) ==> checked(bytes)
            == Err::<(), Seq<char>>("Expected NetCDF-4 file, got "@ + "Classic"@),
        opened_format(bytes) == Ok::<Format, Seq<char>>(Format::Offset64) ==> checked(bytes)
            == Err::<(), Seq<char>>("Expected NetCDF-4 file, got "@ + "Offset64"@),
        opened_format(bytes) == Ok::<Format, Seq<char>>(Format::Cdf5) ==> checked(bytes)
            == Err::<(), Seq<char>>("Expected NetCDF-4 file, got "@ + "Cdf5"@),
{
}

/// Two uploads that open alike get the same verdict.
pub proof fn law_verdict_follows_opening(x: Seq<u8>, y: Seq<u8>)
    ensures
        is_hdf5(x) && is_hdf5(y) && opened_netcdf4(x) == opened_netcdf4(y) ==> checked(x)
            == checked(y),
        !is_hdf5(x) && !is_hdf5(y) && opened_format(x) == opened_format(y) ==> checked(x)
            == checked(y),
{
}

/// The verdict on what opening an upload gave.
pub proof fn law_verdicts(format: Format, e: Seq<char>)
    ensures
        verdict(Ok(format)) is Ok <==> format is Nc4 || format is Nc4Classic,
        verdict(Ok(format)) matches Err(text) ==> text == "Expected NetCDF-4 file, got "@
            + format.spec_name(),
        verdict(Err(e)) == Err::<(), Seq<char>>("Could not open uploaded bytes as NetCDF: "@ + e),
        hdf5_verdict(Ok(())) == Ok::<(), Seq<char>>(()),
        hdf5_verdict(Err(e)) == Err::<(), Seq<char>>(
            "Could not open uploaded bytes as NetCDF: "@ + e,
        ),
        format.is_netcdf4() <==> format is Nc4 || format is Nc4Classic,
        Format::Classic.spec_name() == "Classic"@,
        Format::Offset64.spec_name() == "Offset64"@,
        Format::Cdf5.spec_name() == "Cdf5"@,
        Format::Nc4.spec_name() == "Nc4"@,
        Format::Nc4Classic.spec_name() == "Nc4Classic"@,
{
}

/// The HDF5 signature stands where its eight bytes stand, whatever is around them.
pub proof fn law_signature(bytes: Seq<u8>, at: int)
    ensures
        hdf5_signature_at(bytes, at) <==> 0 <= at && at + 8 <= bytes.len() && bytes[at] == 137
            && bytes[at + 1] == 72 && bytes[at + 2] == 68 && bytes[at + 3] == 70 && bytes[at + 4]
            == 13 && bytes[at + 5] == 10 && bytes[at + 6] == 26 && bytes[at + 7] == 10,
{
    let signature = seq![137u8, 72u8, 68u8, 70u8, 13u8, 10u8, 26u8, 10u8];
    if 0 <= at <= bytes.len() - 8 {
        let here = bytes.subrange(at, at + 8);
        assert(here[0] == bytes[at]);
        assert(here[1] == bytes[at + 1]);
        assert(here[2] == bytes[at + 2]);
        assert(here[3] == bytes[at + 3]);
        assert(here[4] == bytes[at + 4]);
        assert(here[5] == bytes[at + 5]);
        assert(here[6] == bytes[at + 6]);
        assert(here[7] == bytes[at + 7]);
        if bytes[at] == 137 && bytes[at + 1] == 72 && bytes[at + 2] == 68 && bytes[at + 3] == 70
            && bytes[at + 4] == 13 && bytes[at + 5] == 10 && bytes[at + 6] == 26 && bytes[at + 7]
            == 10 {
            assert(here =~= signature);
        }
    }
}

/// A file is taken for an HDF5 file exactly where it has the signature at its start, or at byte
/// 512 or a doubling of that, and does not begin as the classic formats do.
pub proof fn law_hdf5_files(bytes: Seq<u8>)
    ensures
        hdf5_signature_at(bytes, 0) ==> has_hdf5_signature(bytes) && is_hdf5(bytes),
        forall|k: nat|
            hdf5_signature_at(bytes, 512 * #[trigger] pow2(k) as int) ==> has_hdf5_signature(bytes),
        has_hdf5_signature(bytes) && !hdf5_signature_at(bytes, 0) ==> exists|k: nat|
            hdf5_signature_at(bytes, 512 * #[trigger] pow2(k) as int),
        is_hdf5(bytes) <==> has_hdf5_signature(bytes) && !(bytes.len() >= 4 && bytes[0] == 67
            && bytes[1] == 68 && bytes[2] == 70),
{
    law_signature(bytes, 0);
    law_classic_files(bytes);
}

/// A file begins as the classic formats do where its first three bytes are theirs and a version
/// follows, which is the fourth byte.
pub proof fn law_classic_files(bytes: Seq<u8>)
    ensures
        classic_version(bytes) is Some <==> bytes.len() >= 4 && bytes[0] == 67 && bytes[1] == 68
            && bytes[2] == 70,
        classic_version(bytes) matches Some(v) ==> v == bytes[3],
{
    if bytes.len() >= 4 {
        let here = bytes.take(3);
        assert(here[0] == bytes[0] && here[1] == bytes[1] && here[2] == bytes[2]);
        if bytes[0] == 67 && bytes[1] == 68 && bytes[2] == 70 {
            assert(here =~= seq![67u8, 68u8, 70u8]);
        }
    }
}

/// The signature alone decides where there is none, and where it is that of a classic format that
/// is not known.
pub proof fn law_signature_errors(bytes: Seq<u8>)
    ensures
        classic_version(bytes) matches Some(v) ==> v != 1 && v != 2 && v != 5 ==> signature_error(
            bytes,
        ) == Some("unsupported NetCDF format version "@ + decimal(v as int)),
        classic_version(bytes) is None && !has_hdf5_signature(bytes) ==> signature_error(bytes)
            == Some("invalid NetCDF magic bytes"@),
        is_hdf5(bytes) ==> signature_error(bytes) is None,
        classic_version(bytes) matches Some(v) ==> v == 1 || v == 2 || v == 5 ==> signature_error(
            bytes,
        ) is None,
{
}

} // verus!
