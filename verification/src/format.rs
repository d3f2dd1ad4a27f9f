//! Which uploads are NetCDF-4 files.

use vstd::arithmetic::power2::{
    lemma2_to64, lemma_pow2_strictly_increases, lemma_pow2_unfold, pow2,
};
use vstd::prelude::*;
use crate::text::{decimal, join2};

verus! {

/// The formats of NetCDF files.
#[derive(Clone, Copy, Debug, PartialEq, Eq, Structural)]
pub enum Format {
    /// The classic format.
    Classic,
    /// The classic format with 64-bit offsets.
    Offset64,
    /// The classic format with 64-bit data.
    Cdf5,
    /// NetCDF-4.
    Nc4,
    /// NetCDF-4 that keeps to the classic data model.
    Nc4Classic,
}

impl Format {
    /// What error messages call the format.
    pub open spec fn spec_name(self) -> Seq<char> {
        match self {
            Format::Classic => "Classic"@,
            Format::Offset64 => "Offset64"@,
            Format::Cdf5 => "Cdf5"@,
            Format::Nc4 => "Nc4"@,
            Format::Nc4Classic => "Nc4Classic"@,
        }
    }

    /// Whether files of the format are NetCDF-4 files.
    pub open spec fn is_netcdf4(self) -> bool {
        self == Format::Nc4 || self == Format::Nc4Classic
    }

    /// What error messages call the format.
    pub fn name(self) -> (n: &'static str)
        ensures
            n@ == self.spec_name(),
            self is Classic ==> n@ == "Classic"@,
            self is Offset64 ==> n@ == "Offset64"@,
            self is Cdf5 ==> n@ == "Cdf5"@,
            self is Nc4 ==> n@ == "Nc4"@,
            self is Nc4Classic ==> n@ == "Nc4Classic"@,
    {
        match self {
            Format::Classic => "Classic",
            Format::Offset64 => "Offset64",
            Format::Cdf5 => "Cdf5",
            Format::Nc4 => "Nc4",
            Format::Nc4Classic => "Nc4Classic",
        }
    }
}

/// What opening `bytes`, which are no HDF5 file, as a NetCDF file with `netcdf_reader` gives: the
/// format of the file, or the message of the error.
pub uninterp spec fn opened_format(bytes: Seq<u8>) -> Result<Format, Seq<char>>;

/// What opening `bytes`, which are an HDF5 file, as a NetCDF-4 file with `netcdf_reader` gives:
/// nothing, or the message of the error.
pub uninterp spec fn opened_netcdf4(bytes: Seq<u8>) -> Result<(), Seq<char>>;

/// The version byte behind the signature that files of the classic formats begin with, where
/// `bytes` begin with it.
pub open spec fn classic_version(bytes: Seq<u8>) -> Option<u8> {
    if bytes.len() >= 4 && bytes.take(3) == seq![0x43u8, 0x44u8, 0x46u8] {
        Some(bytes[3])
    } else {
        None
    }
}

/// Whether the HDF5 signature stands in `bytes` at the position `at`.
pub open spec fn hdf5_signature_at(bytes: Seq<u8>, at: int) -> bool {
    &&& 0 <= at <= bytes.len() - 8
    &&& bytes.subrange(at, at + 8) == seq![
        0x89u8,
        0x48u8,
        0x44u8,
        0x46u8,
        0x0du8,
        0x0au8,
        0x1au8,
        0x0au8,
    ]
}

/// Whether the HDF5 signature stands in `bytes` where an HDF5 file may have it: at the start, or
/// at byte 512 or any doubling of that.
pub open spec fn has_hdf5_signature(bytes: Seq<u8>) -> bool {
    hdf5_signature_at(bytes, 0) || exists|k: nat|
        hdf5_signature_at(bytes, 512 * #[trigger] pow2(k) as int)
}

/// Whether `bytes` are taken for an HDF5 file. The signature of the classic formats goes before
/// that of HDF5.
pub open spec fn is_hdf5(bytes: Seq<u8>) -> bool {
    classic_version(bytes) is None && has_hdf5_signature(bytes)
}

/// The error of opening `bytes` where their signature alone decides it: they have none, or that
/// of a classic format that is not known.
pub open spec fn signature_error(bytes: Seq<u8>) -> Option<Seq<char>> {
    match classic_version(bytes) {
        Some(v) => if v == 1 || v == 2 || v == 5 {
            None
        } else {
            Some("unsupported NetCDF format version "@ + decimal(v as int))
        },
        None => if has_hdf5_signature(bytes) {
            None
        } else {
            Some("invalid NetCDF magic bytes"@)
        },
    }
}

/// The verdict on an upload, from what opening its bytes gave.
pub open spec fn verdict(opened: Result<Format, Seq<char>>) -> Result<(), Seq<char>> {
    match opened {
        Err(e) => Err("Could not open uploaded bytes as NetCDF: "@ + e),
        Ok(format) => if format.is_netcdf4() {
            Ok(())
        } else {
            Err("Expected NetCDF-4 file, got "@ + format.spec_name())
        },
    }
}

/// The verdict on an upload that is an HDF5 file, from what opening it as a NetCDF-4 file gave.
pub open spec fn hdf5_verdict(opened: Result<(), Seq<char>>) -> Result<(), Seq<char>> {
    match opened {
        Err(e) => Err("Could not open uploaded bytes as NetCDF: "@ + e),
        Ok(()) => Ok(()),
    }
}

/// The verdict on an upload of the given bytes.
pub open spec fn checked(bytes: Seq<u8>) -> Result<(), Seq<char>> {
    if is_hdf5(bytes) {
        hdf5_verdict(opened_netcdf4(bytes))
    } else {
        verdict(opened_format(bytes))
    }
}

/// Whether `bytes` are a NetCDF-4 file.
pub open spec fn is_netcdf4(bytes: Seq<u8>) -> bool {
    checked(bytes) is Ok
}

/// `opened` with its text viewed as a sequence of characters.
pub open spec fn opened_texts(opened: Result<Format, String>) -> Result<Format, Seq<char>> {
    match opened {
        Ok(format) => Ok(format),
        Err(e) => Err(e@),
    }
}

/// `checked` with its text viewed as a sequence of characters.
pub open spec fn checked_texts(checked: Result<(), String>) -> Result<(), Seq<char>> {
    match checked {
        Ok(()) => Ok(()),
        Err(e) => Err(e@),
    }
}

/// Calls `netcdf_reader::NcFile::from_bytes`, and `format` on the file that it opens.
///
/// The contract claims that the format, or the printed error, depends on the bytes alone. It
/// claims that a format is only found behind its signature, and what the error is where the
/// signature alone decides it. Which files behind a signature are sound is left unsaid.
///
/// HDF5 files are left out: of these the call reads the root group as well, and some damaged ones
/// make its arithmetic overflow, which panics where overflow is checked.
#[verifier::external_body]
fn open_format(bytes: &[u8]) -> (r: Result<Format, String>)
    requires
        !is_hdf5(bytes@),
    ensures
        opened_texts(r) == opened_format(bytes@),
        r matches Ok(Format::Classic) ==> classic_version(bytes@) == Some(1u8),
        r matches Ok(Format::Offset64) ==> classic_version(bytes@) == Some(2u8),
        r matches Ok(Format::Cdf5) ==> classic_version(bytes@) == Some(5u8),
        r matches Ok(format) ==> !format.is_netcdf4(),
        r matches Err(e) ==> (signature_error(bytes@) matches Some(text) ==> e@ == text),
{
    match netcdf_reader::NcFile::from_bytes(bytes) {
        Ok(file) => Ok(match file.format() {
            netcdf_reader::NcFormat::Classic => Format::Classic,
            netcdf_reader::NcFormat::Offset64 => Format::Offset64,
            netcdf_reader::NcFormat::Cdf5 => Format::Cdf5,
            netcdf_reader::NcFormat::Nc4 => Format::Nc4,
            netcdf_reader::NcFormat::Nc4Classic => Format::Nc4Classic,
        }),
        Err(e) => Err(format!("{e}")),
    }
}

/// Calls `netcdf_reader::nc4::Nc4File::from_bytes_with_options`, by which `NcFile::from_bytes`
/// opens HDF5 files, in the mode in which nothing but the superblock of the file is read.
///
/// The contract claims that success, or the printed error, depends on the bytes alone. Which
/// superblocks are sound is left unsaid. The file that is opened keeps to one of the two data
/// models of NetCDF-4; which one is not asked for, since both are accepted.
#[verifier::external_body]
fn open_netcdf4(bytes: &[u8]) -> (r: Result<(), String>)
    requires
        is_hdf5(bytes@),
    ensures
        checked_texts(r) == opened_netcdf4(bytes@),
{
    let options = netcdf_reader::NcOpenOptions {
        metadata_mode: netcdf_reader::NcMetadataMode::Lossy,
        ..netcdf_reader::NcOpenOptions::default()
    };
    match netcdf_reader::nc4::Nc4File::from_bytes_with_options(bytes, options) {
        Ok(_) => Ok(()),
        Err(e) => Err(format!("{e}")),
    }
}

/// Whether the HDF5 signature stands in `bytes` at the position `at`.
fn signature_stands_at(bytes: &[u8], at: usize) -> (r: bool)
    requires
        at + 8 <= bytes@.len(),
    ensures
        r == hdf5_signature_at(bytes@, at as int),
{
    let r = bytes[at] == 0x89 && bytes[at + 1] == 0x48 && bytes[at + 2] == 0x44 && bytes[at + 3]
        == 0x46 && bytes[at + 4] == 0x0d && bytes[at + 5] == 0x0a && bytes[at + 6] == 0x1a
        && bytes[at + 7] == 0x0a;
    proof {
        let here = bytes@.subrange(at as int, at + 8);
        let signature = seq![
            0x89u8,
            0x48u8,
            0x44u8,
            0x46u8,
            0x0du8,
            0x0au8,
            0x1au8,
            0x0au8,
        ];
        if r {
            assert(here =~= signature);
        }
        if here == signature {
            assert forall|i: int| 0 <= i < 8 implies bytes@[at + i] == signature[i] by {
                assert(here[i] == bytes@[at + i]);
            }
            assert(bytes@[at + 0] == signature[0]);
            assert(bytes@[at + 1] == signature[1]);
            assert(bytes@[at + 2] == signature[2]);
            assert(bytes@[at + 3] == signature[3]);
            assert(bytes@[at + 4] == signature[4]);
            assert(bytes@[at + 5] == signature[5]);
            assert(bytes@[at + 6] == signature[6]);
            assert(bytes@[at + 7] == signature[7]);
        }
    }
    r
}

/// Looks for the HDF5 signature where an HDF5 file may have it.
fn find_hdf5_signature(bytes: &[u8]) -> (r: bool)
    ensures
        r == has_hdf5_signature(bytes@),
{
    if bytes.len() < 8 {
        return false;
    }
    if signature_stands_at(bytes, 0) {
        return true;
    }
    let last: usize = bytes.len() - 8;
    let mut at: usize = 512;
    let ghost mut k: nat = 0;
    proof {
        lemma2_to64();
    }
    while at <= last
        invariant
            last == bytes@.len() - 8,
            at >= 512,
            at == 512 * pow2(k),
            !hdf5_signature_at(bytes@, 0),
            forall|j: nat| j < k ==> !hdf5_signature_at(bytes@, 512 * #[trigger] pow2(j) as int),
        decreases last + 1 - at,
    {
        if signature_stands_at(bytes, at) {
            return true;
        }
        if at > last / 2 {
            proof {
                lemma_pow2_unfold(k + 1);
                lemma_no_signature_beyond(bytes@, k + 1);
            }
            return false;
        }
        proof {
            lemma_pow2_unfold(k + 1);
            k = k + 1;
        }
        at = at * 2;
    }
    proof {
        lemma_no_signature_beyond(bytes@, k);
    }
    false
}

/// Where the signature does not fit at one of its places, it stands at none after that.
proof fn lemma_no_signature_beyond(bytes: Seq<u8>, k: nat)
    requires
        512 * pow2(k) > bytes.len() - 8,
        !hdf5_signature_at(bytes, 0),
        forall|j: nat| j < k ==> !hdf5_signature_at(bytes, 512 * #[trigger] pow2(j) as int),
    ensures
        !has_hdf5_signature(bytes),
{
    assert forall|j: nat| !hdf5_signature_at(bytes, 512 * #[trigger] pow2(j) as int) by {
        if j > k {
            lemma_pow2_strictly_increases(k, j);
        }
    }
}

/// Whether `bytes` begin with the signature of the classic formats.
fn begins_as_classic(bytes: &[u8]) -> (r: bool)
    ensures
        r == classic_version(bytes@) is Some,
{
    if bytes.len() < 4 {
        return false;
    }
    let r = bytes[0] == 0x43 && bytes[1] == 0x44 && bytes[2] == 0x46;
    proof {
        let here = bytes@.take(3);
        let signature = seq![0x43u8, 0x44u8, 0x46u8];
        if r {
            assert(here =~= signature);
        }
        if here == signature {
            assert(here[0] == bytes@[0] && here[1] == bytes@[1] && here[2] == bytes@[2]);
        }
    }
    r
}

/// Decides on an upload from what opening its bytes gave: only NetCDF-4 files are accepted.
pub fn accept_format(opened: Result<Format, String>) -> (r: Result<(), String>)
    ensures
        checked_texts(r) == verdict(opened_texts(opened)),
        r is Ok <==> (opened matches Ok(format) && (format is Nc4 || format is Nc4Classic)),
        opened matches Ok(format) ==> (r matches Err(e) ==> e@ == "Expected NetCDF-4 file, got "@
            + format.spec_name()),
        opened matches Err(problem) ==> (r matches Err(e) && e@
            == "Could not open uploaded bytes as NetCDF: "@ + problem@),
{
    match opened {
        Err(e) => Err(join2("Could not open uploaded bytes as NetCDF: ", e.as_str())),
        Ok(Format::Nc4) => Ok(()),
        Ok(Format::Nc4Classic) => Ok(()),
        Ok(other) => Err(join2("Expected NetCDF-4 file, got ", other.name())),
    }
}

/// Decides on an upload that is an HDF5 file from what opening it as a NetCDF-4 file gave.
pub fn accept_hdf5(opened: Result<(), String>) -> (r: Result<(), String>)
    ensures
        checked_texts(r) == hdf5_verdict(checked_texts(opened)),
        r is Ok <==> opened is Ok,
        opened matches Err(problem) ==> (r matches Err(e) && e@
            == "Could not open uploaded bytes as NetCDF: "@ + problem@),
{
    match opened {
        Err(e) => Err(join2("Could not open uploaded bytes as NetCDF: ", e.as_str())),
        Ok(()) => Ok(()),
    }
}

/// Checks that the uploaded `bytes` can be opened as a NetCDF-4 file.
pub fn confirm_is_netcdf4(bytes: &[u8]) -> (r: Result<(), String>)
    ensures
        checked_texts(r) == checked(bytes@),
        r is Ok ==> is_hdf5(bytes@),
        classic_version(bytes@) is Some ==> r is Err,
        signature_error(bytes@) matches Some(text) ==> checked_texts(r) == Err::<(), Seq<char>>(
            "Could not open uploaded bytes as NetCDF: "@ + text,
        ),
        is_hdf5(bytes@) ==> (r is Ok <==> opened_netcdf4(bytes@) is Ok),
        is_hdf5(bytes@) ==> (opened_netcdf4(bytes@) matches Err(problem) ==> (r matches Err(e) && e@
            == "Could not open uploaded bytes as NetCDF: "@ + problem)),
        !is_hdf5(bytes@) ==> (opened_format(bytes@) matches Err(problem) ==> (r matches Err(e) && e@
            == "Could not open uploaded bytes as NetCDF: "@ + problem)),
        !is_hdf5(bytes@) ==> (opened_format(bytes@) matches Ok(format) ==> (r matches Err(e) && e@
            == "Expected NetCDF-4 file, got "@ + format.spec_name())),
{
    if !begins_as_classic(bytes) && find_hdf5_signature(bytes) {
        accept_hdf5(open_netcdf4(bytes))
    } else {
        accept_format(open_format(bytes))
    }
}

} // verus!
