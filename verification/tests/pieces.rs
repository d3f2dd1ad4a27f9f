//! The small functions that a merge is made of.

use netcdf_merge::inquiry::{get_att_name, inquire_file, nc_type_size};
use netcdf_merge::names::{checked_name, cstr_to_string};
use netcdf_merge::protocol::{check_nc, is_supported_atomic_type, Part, Reply};
use netcdf_merge::text::{i32_text, join2, join3, join4, u64_text};

fn ok() -> Reply {
    Reply::bare(0, "No error".to_string())
}

fn failed() -> Reply {
    Reply::bare(-33, "NetCDF: Not a valid ID".to_string())
}

#[test]
fn numerals_are_decimal() {
    assert_eq!(u64_text(0), "0");
    assert_eq!(u64_text(1234567890), "1234567890");
    assert_eq!(u64_text(u64::MAX), u64::MAX.to_string());
    assert_eq!(i32_text(0), "0");
    assert_eq!(i32_text(-10), "-10");
    assert_eq!(i32_text(i32::MIN), "-2147483648");
    assert_eq!(i32_text(i32::MAX), "2147483647");
}

#[test]
fn texts_are_joined() {
    assert_eq!(join2("a", "bc"), "abc");
    assert_eq!(join3("", "x", "y"), "xy");
    assert_eq!(join4("1", "2", "3", "ü"), "123ü");
}

#[test]
fn c_strings_end_at_nul() {
    assert_eq!(cstr_to_string(b"time\0garbage"), Ok("time".to_string()));
    assert_eq!(cstr_to_string(b"time"), Ok("time".to_string()));
    assert_eq!(cstr_to_string(b"\0"), Ok(String::new()));
    assert_eq!(cstr_to_string(b""), Ok(String::new()));
    assert_eq!(cstr_to_string("höhe\0".as_bytes()), Ok("höhe".to_string()));
}

#[test]
fn c_strings_must_be_utf8() {
    assert_eq!(
        cstr_to_string(&[b'a', 0xc3, 0]),
        Err(
            "Invalid UTF-8 from NetCDF name: incomplete utf-8 byte sequence from index 1"
                .to_string()
        )
    );
    assert_eq!(cstr_to_string(&[b'a', 0, 0xff]), Ok("a".to_string()));
    assert_eq!(
        checked_name(Err("why".to_string())),
        Err("Invalid UTF-8 from NetCDF name: why".to_string())
    );
    assert_eq!(checked_name(Ok("n".to_string())), Ok("n".to_string()));
}

#[test]
fn statuses_are_checked() {
    assert_eq!(check_nc(0, "No error", "Could not"), Ok(()));
    assert_eq!(check_nc(-1, "bad", "Could not"), Err("Could not: bad".to_string()));
    assert_eq!(check_nc(1, "odd", "Could not"), Err("Could not: odd".to_string()));
}

#[test]
fn supported_types_are_the_atomic_ones() {
    for xtype in 1..=12 {
        assert!(is_supported_atomic_type(xtype));
    }
    for xtype in [i32::MIN, -1, 0, 13, 16, 32, i32::MAX] {
        assert!(!is_supported_atomic_type(xtype));
    }
}

#[test]
fn files_are_inquired() {
    let reply = Reply { ndims: 1, nvars: 2, natts: 3, unlimdimid: 0, ..ok() };
    assert_eq!(inquire_file(&reply, Part::A), Ok((1, 2, 3, 0)));
    assert_eq!(
        inquire_file(&failed(), Part::B),
        Err("Could not inspect file structure for part_b: NetCDF: Not a valid ID".to_string())
    );
}

#[test]
fn attribute_names_are_read() {
    let reply = Reply { name: b"units\0\0".to_vec(), ..ok() };
    assert_eq!(get_att_name(&reply, 0), Ok("units".to_string()));
    assert_eq!(
        get_att_name(&failed(), 4),
        Err("Could not read attribute name 4: NetCDF: Not a valid ID".to_string())
    );
}

#[test]
fn type_sizes_are_read() {
    assert_eq!(nc_type_size(&Reply { len: 8, ..ok() }, 6), Ok(8));
    assert_eq!(
        nc_type_size(&failed(), 6),
        Err("Could not get size for NetCDF type 6: NetCDF: Not a valid ID".to_string())
    );
}

#[test]
fn parts_have_labels() {
    assert_eq!(Part::A.label(), "part_a");
    assert_eq!(Part::B.label(), "part_b");
}
