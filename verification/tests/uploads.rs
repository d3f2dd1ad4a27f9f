//! Uploads, what is kept of them and what is read after them.

use netcdf_merge::format::{accept_format, accept_hdf5, confirm_is_netcdf4, Format};
use netcdf_merge::merge::Merge;
use netcdf_merge::protocol::{Reply, Request, NC_NOERR};
use netcdf_merge::store::{
    accept_upload, combined_response, index, read_combined, upload_part_a, upload_part_b, Store,
    Upload, MAX_UPLOAD_SIZE_GIB,
};

/// The start of an HDF5 file: the signature and a superblock whose addresses and lengths have
/// eight bytes. `tag` is a byte behind it, which tells files apart.
fn netcdf4(tag: u8) -> Vec<u8> {
    let mut file = vec![0x89, b'H', b'D', b'F', b'\r', b'\n', 0x1a, b'\n'];
    file.extend([0, 0, 0, 0, 0, 8, 8, 0]);
    file.extend([4, 0, 16, 0, 0, 0, 0, 0]);
    file.extend(0u64.to_le_bytes());
    file.extend(u64::MAX.to_le_bytes());
    file.extend(200u64.to_le_bytes());
    file.extend(u64::MAX.to_le_bytes());
    file.extend(0u64.to_le_bytes());
    file.extend(96u64.to_le_bytes());
    file.extend([0; 24]);
    file.resize(199, 0);
    file.push(tag);
    file
}

/// A file of the classic format with the given version byte that holds nothing.
fn classic(version: u8) -> Vec<u8> {
    let width = if version == 5 { 8 } else { 4 };
    let mut file = vec![b'C', b'D', b'F', version];
    file.extend(vec![0; width]);
    for _ in 0..3 {
        file.extend([0; 4]);
        file.extend(vec![0; width]);
    }
    file
}

fn upload(tag: u8) -> Upload {
    accept_upload(Ok(netcdf4(tag))).expect("a NetCDF-4 file is accepted")
}

/// The two files that a merge opens.
fn files(merge: Merge<'_>) -> (Vec<u8>, Vec<u8>) {
    let ok = || Reply::bare(NC_NOERR, String::new());
    let Merge::Running(m) = merge else { panic!() };
    let Merge::Running(open_a) = m.resume(ok()) else { panic!() };
    let Request::OpenMem { memory, .. } = open_a.request() else { panic!() };
    let a = memory.to_vec();
    let Merge::Running(open_b) = open_a.resume(ok()) else { panic!() };
    let Request::OpenMem { memory, .. } = open_b.request() else { panic!() };
    let b = memory.to_vec();
    (a, b)
}

fn read(store: &Store, name: &str) -> Result<(Vec<u8>, Vec<u8>), String> {
    read_combined(store, name).map(files)
}

#[test]
fn answers_at_the_root() {
    assert_eq!(index(), "Server is running.");
}

#[test]
fn uploads_are_limited_to_one_gibibyte() {
    assert_eq!(MAX_UPLOAD_SIZE_GIB, 1);
}

#[test]
fn netcdf4_is_accepted() {
    assert_eq!(confirm_is_netcdf4(&netcdf4(1)), Ok(()));
    assert_eq!(upload(7).bytes(), &netcdf4(7)[..]);
}

#[test]
fn netcdf4_behind_a_user_block_is_accepted() {
    let mut file = vec![0; 512];
    file.extend(netcdf4(1));
    assert_eq!(confirm_is_netcdf4(&file), Ok(()));
}

#[test]
fn signature_is_looked_for_at_doublings_only() {
    for block in [512, 1024, 2048, 65536] {
        let mut file = vec![7; block];
        file.extend(netcdf4(1));
        assert_eq!(confirm_is_netcdf4(&file), Ok(()));
    }
    for block in [1, 256, 511, 513, 1536, 3072] {
        let mut file = vec![7; block];
        file.extend(netcdf4(1));
        assert_eq!(
            confirm_is_netcdf4(&file),
            Err("Could not open uploaded bytes as NetCDF: invalid NetCDF magic bytes".to_string())
        );
    }
}

#[test]
fn signature_must_fit() {
    let mut file = vec![0; 512];
    file.extend(&netcdf4(1)[..7]);
    assert_eq!(
        confirm_is_netcdf4(&file),
        Err("Could not open uploaded bytes as NetCDF: invalid NetCDF magic bytes".to_string())
    );
}

#[test]
fn classic_signature_goes_before_that_of_hdf5() {
    let mut file = classic(1);
    file.resize(512, 0);
    file.extend(netcdf4(1));
    assert_eq!(
        confirm_is_netcdf4(&file),
        Err("Expected NetCDF-4 file, got Classic".to_string())
    );
}

#[test]
fn unsound_superblock_is_refused() {
    let mut file = netcdf4(1);
    file[8] = 9;
    assert_eq!(
        confirm_is_netcdf4(&file),
        Err(
            "Could not open uploaded bytes as NetCDF: HDF5 error: unsupported superblock version 9"
                .to_string()
        )
    );
}

#[test]
fn hdf5_files_are_judged() {
    assert_eq!(accept_hdf5(Ok(())), Ok(()));
    assert_eq!(
        accept_hdf5(Err("broken".to_string())),
        Err("Could not open uploaded bytes as NetCDF: broken".to_string())
    );
}

#[test]
fn netcdf3_upload_is_refused() {
    assert_eq!(
        accept_upload(Ok(classic(1))).err().unwrap(),
        "Expected NetCDF-4 file, got Classic"
    );
    assert_eq!(
        accept_upload(Ok(classic(2))).err().unwrap(),
        "Expected NetCDF-4 file, got Offset64"
    );
}

#[test]
fn cdf5_upload_is_refused() {
    assert_eq!(
        accept_upload(Ok(classic(5))).err().unwrap(),
        "Expected NetCDF-4 file, got Cdf5"
    );
}

#[test]
fn invalid_upload_is_refused() {
    for body in [b"this is not NetCDF".to_vec(), vec![], b"CDF".to_vec()] {
        assert_eq!(
            accept_upload(Ok(body)).err().unwrap(),
            "Could not open uploaded bytes as NetCDF: invalid NetCDF magic bytes"
        );
    }
    assert_eq!(
        confirm_is_netcdf4(b"CDF\x07"),
        Err(
            "Could not open uploaded bytes as NetCDF: unsupported NetCDF format version 7"
                .to_string()
        )
    );
}

#[test]
fn truncated_netcdf4_is_refused() {
    let e = confirm_is_netcdf4(&netcdf4(1)[..8]).unwrap_err();
    assert!(e.starts_with("Could not open uploaded bytes as NetCDF: "));
}

#[test]
fn unread_body_is_refused() {
    assert_eq!(
        accept_upload(Err("connection reset".to_string())).err().unwrap(),
        "Could not read request body: connection reset"
    );
}

#[test]
fn formats_are_judged() {
    assert_eq!(accept_format(Ok(Format::Nc4)), Ok(()));
    assert_eq!(accept_format(Ok(Format::Nc4Classic)), Ok(()));
    assert_eq!(
        accept_format(Ok(Format::Cdf5)),
        Err("Expected NetCDF-4 file, got Cdf5".to_string())
    );
    assert_eq!(
        accept_format(Err("broken".to_string())),
        Err("Could not open uploaded bytes as NetCDF: broken".to_string())
    );
    assert_eq!(Format::Nc4.name(), "Nc4");
    assert_eq!(Format::Nc4Classic.name(), "Nc4Classic");
}

#[test]
fn both_parts_are_read() {
    let mut store = Store::new();
    assert_eq!(upload_part_a(&mut store, "test".to_string(), upload(1)), "stored part_a");
    assert_eq!(upload_part_b(&mut store, "test".to_string(), upload(2)), "stored part_b");
    assert_eq!(read(&store, "test"), Ok((netcdf4(1), netcdf4(2))));
    assert_eq!(read(&store, "test"), Ok((netcdf4(1), netcdf4(2))));
}

#[test]
fn parts_come_in_either_order() {
    let mut store = Store::new();
    upload_part_b(&mut store, "test".to_string(), upload(2));
    upload_part_a(&mut store, "test".to_string(), upload(1));
    assert_eq!(read(&store, "test"), Ok((netcdf4(1), netcdf4(2))));
}

#[test]
fn reupload_part_b_overwrites_only_that_side() {
    let mut store = Store::new();
    upload_part_a(&mut store, "example".to_string(), upload(1));
    upload_part_b(&mut store, "example".to_string(), upload(2));
    upload_part_b(&mut store, "example".to_string(), upload(3));
    assert_eq!(read(&store, "example"), Ok((netcdf4(1), netcdf4(3))));
    upload_part_a(&mut store, "example".to_string(), upload(4));
    assert_eq!(read(&store, "example"), Ok((netcdf4(4), netcdf4(3))));
}

#[test]
fn names_are_apart() {
    let mut store = Store::new();
    for (i, name) in ["x", "y", "", "Z"].iter().enumerate() {
        upload_part_a(&mut store, name.to_string(), upload(10 + i as u8));
        upload_part_b(&mut store, name.to_string(), upload(20 + i as u8));
    }
    upload_part_a(&mut store, "y".to_string(), upload(99));
    assert_eq!(read(&store, "x"), Ok((netcdf4(10), netcdf4(20))));
    assert_eq!(read(&store, "y"), Ok((netcdf4(99), netcdf4(21))));
    assert_eq!(read(&store, ""), Ok((netcdf4(12), netcdf4(22))));
    assert_eq!(read(&store, "Z"), Ok((netcdf4(13), netcdf4(23))));
}

#[test]
fn uploads_under_two_names_come_in_either_order() {
    let (mut one, mut other) = (Store::new(), Store::new());
    for step in [0, 1, 2, 3] {
        for (store, i) in [(&mut one, step), (&mut other, 3 - step)] {
            match i {
                0 => upload_part_a(store, "m".to_string(), upload(1)),
                1 => upload_part_b(store, "n".to_string(), upload(2)),
                2 => upload_part_a(store, "n".to_string(), upload(3)),
                _ => upload_part_b(store, "m".to_string(), upload(4)),
            };
        }
    }
    for store in [&one, &other] {
        assert_eq!(read(store, "m"), Ok((netcdf4(1), netcdf4(4))));
        assert_eq!(read(store, "n"), Ok((netcdf4(3), netcdf4(2))));
    }
}

#[test]
fn unknown_name_is_refused() {
    let store = Store::new();
    assert_eq!(read(&store, "nobody"), Err("No upload found for name=nobody".to_string()));
}

#[test]
fn missing_part_b_is_refused() {
    let mut store = Store::new();
    upload_part_a(&mut store, "half".to_string(), upload(1));
    assert_eq!(read(&store, "half"), Err("Part_b is empty for name=half".to_string()));
}

#[test]
fn missing_part_a_is_refused() {
    let mut store = Store::new();
    upload_part_b(&mut store, "half".to_string(), upload(1));
    assert_eq!(read(&store, "half"), Err("Part_a is empty for name=half".to_string()));
}

#[test]
fn merged_bytes_are_answered() {
    assert_eq!(combined_response("test", Ok(vec![1, 2])), Ok(vec![1, 2]));
    assert_eq!(
        combined_response("test", Err("no luck".to_string())),
        Err("Could not combine NetCDF files for name=test. Error: no luck".to_string())
    );
}
