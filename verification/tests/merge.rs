//! Whole merges, with a small stand-in for NetCDF-C that keeps datasets in a list.

use netcdf_merge::merge::{combine_netcdf4_in_memory, Merge};
use netcdf_merge::protocol::{
    Reply, Request, NC_BYTE, NC_CHAR, NC_DOUBLE, NC_FLOAT, NC_GLOBAL, NC_INT, NC_INT64, NC_NETCDF4,
    NC_NOERR, NC_NOWRITE, NC_SHORT, NC_STRING, NC_UBYTE, NC_UINT, NC_UINT64, NC_USHORT,
};

#[derive(Clone, Debug, PartialEq)]
enum Values {
    Unset,
    Bytes(Vec<u8>),
    Strings(Vec<String>),
}

#[derive(Clone, Debug, PartialEq)]
struct Att {
    name: String,
    value: String,
}

#[derive(Clone, Debug, PartialEq)]
struct Var {
    name: String,
    xtype: i32,
    dims: Vec<i32>,
    atts: Vec<Att>,
    values: Values,
}

#[derive(Clone, Debug, PartialEq)]
struct Dataset {
    dims: Vec<(String, usize)>,
    atts: Vec<Att>,
    vars: Vec<Var>,
}

fn empty() -> Dataset {
    Dataset { dims: vec![], atts: vec![], vars: vec![] }
}

fn att(name: &str, value: &str) -> Att {
    Att { name: name.to_string(), value: value.to_string() }
}

fn var(name: &str, xtype: i32, dims: &[i32], values: Values) -> Var {
    Var { name: name.to_string(), xtype, dims: dims.to_vec(), atts: vec![], values }
}

fn dim(name: &str, len: usize) -> (String, usize) {
    (name.to_string(), len)
}

fn type_size(xtype: i32) -> usize {
    match xtype {
        NC_BYTE | NC_CHAR | NC_UBYTE => 1,
        NC_SHORT | NC_USHORT => 2,
        NC_INT | NC_UINT | NC_FLOAT => 4,
        _ => 8,
    }
}

fn done() -> Reply {
    Reply::bare(NC_NOERR, "No error".to_string())
}

fn failed(message: &str) -> Reply {
    Reply::bare(-1, message.to_string())
}

fn with_nul(name: &str) -> Vec<u8> {
    let mut bytes = name.as_bytes().to_vec();
    bytes.push(0);
    bytes.push(b'x');
    bytes
}

/// The stand-in. The first byte of a file says which of `files` it is.
struct Library {
    files: Vec<Dataset>,
    open: Vec<Option<Dataset>>,
    strings: Vec<String>,
    output: i32,
    defining: bool,
    kept_strings: bool,
    log: Vec<&'static str>,
    result: Option<Dataset>,
}

impl Library {
    fn new(files: Vec<Dataset>) -> Library {
        Library {
            files,
            open: vec![],
            strings: vec![],
            output: -1,
            defining: false,
            kept_strings: false,
            log: vec![],
            result: None,
        }
    }

    fn set(&mut self, ncid: i32) -> &mut Dataset {
        self.open[ncid as usize].as_mut().expect("dataset is open")
    }

    fn perform(&mut self, request: Request<'_>) -> Reply {
        match request {
            Request::Lock => {
                self.log.push("lock");
                done()
            }
            Request::OpenMem { mode, memory, .. } => {
                self.log.push("open");
                assert_eq!(mode, NC_NOWRITE);
                let file = self.files[memory[0] as usize].clone();
                self.open.push(Some(file));
                Reply { id: self.open.len() as i32 - 1, ..done() }
            }
            Request::CreateMem { mode, .. } => {
                self.log.push("create");
                assert_eq!(mode, NC_NETCDF4);
                self.open.push(Some(empty()));
                self.defining = true;
                self.output = self.open.len() as i32 - 1;
                Reply { id: self.output, ..done() }
            }
            Request::Inq { ncid } => {
                let d = self.set(ncid);
                Reply {
                    ndims: d.dims.len() as i32,
                    nvars: d.vars.len() as i32,
                    natts: d.atts.len() as i32,
                    ..done()
                }
            }
            Request::InqDim { ncid, dimid } => {
                let (name, len) = self.set(ncid).dims[dimid as usize].clone();
                Reply { name: with_nul(&name), len, ..done() }
            }
            Request::DefDim { ncid, name, len } => {
                self.log.push("def_dim");
                assert!(self.defining && ncid == self.output);
                let d = self.set(ncid);
                assert!(d.dims.iter().all(|(n, _)| n != name));
                d.dims.push(dim(name, len));
                Reply { id: d.dims.len() as i32 - 1, ..done() }
            }
            Request::InqAttName { ncid, varid, attnum } => {
                let d = self.set(ncid);
                let atts = if varid == NC_GLOBAL { &d.atts } else { &d.vars[varid as usize].atts };
                Reply { name: with_nul(&atts[attnum as usize].name), ..done() }
            }
            Request::CopyAtt { src_ncid, src_varid, name, dst_ncid, dst_varid } => {
                self.log.push("copy_att");
                assert!(self.defining && dst_ncid == self.output);
                let s = self.set(src_ncid);
                let from = if src_varid == NC_GLOBAL {
                    &s.atts
                } else {
                    &s.vars[src_varid as usize].atts
                };
                let found = from.iter().find(|a| a.name == name).expect("attribute exists").clone();
                let d = self.set(dst_ncid);
                let to = if dst_varid == NC_GLOBAL {
                    &mut d.atts
                } else {
                    &mut d.vars[dst_varid as usize].atts
                };
                assert!(to.iter().all(|a| a.name != name));
                to.push(found);
                done()
            }
            Request::InqVar { ncid, varid } => {
                let v = self.set(ncid).vars[varid as usize].clone();
                Reply {
                    name: with_nul(&v.name),
                    xtype: v.xtype,
                    dimids: v.dims,
                    natts: v.atts.len() as i32,
                    ..done()
                }
            }
            Request::DefVar { ncid, name, xtype, dimids } => {
                self.log.push("def_var");
                assert!(self.defining && ncid == self.output);
                let d = self.set(ncid);
                assert!(d.vars.iter().all(|v| v.name != name));
                d.vars.push(var(name, xtype, dimids, Values::Unset));
                Reply { id: d.vars.len() as i32 - 1, ..done() }
            }
            Request::EndDef { ncid } => {
                self.log.push("enddef");
                assert!(self.defining && ncid == self.output);
                self.defining = false;
                done()
            }
            Request::InqType { xtype, .. } => Reply { len: type_size(xtype), ..done() },
            Request::InqDimLen { ncid, dimid } => {
                let len = self.set(ncid).dims[dimid as usize].1;
                Reply { len, ..done() }
            }
            Request::GetVarString { ncid, varid, count } => {
                match self.set(ncid).vars[varid as usize].values.clone() {
                    Values::Strings(s) => {
                        assert_eq!(s.len(), count);
                        self.strings = s;
                        self.kept_strings = true;
                        done()
                    }
                    _ => failed("not strings"),
                }
            }
            Request::PutVarString { ncid, varid } => {
                self.log.push("put_string");
                assert!(!self.defining && ncid == self.output);
                let strings = self.strings.clone();
                self.set(ncid).vars[varid as usize].values = Values::Strings(strings);
                done()
            }
            Request::FreeString { count } => {
                self.log.push("free_string");
                assert!(self.kept_strings);
                assert_eq!(self.strings.len(), count);
                self.strings.clear();
                self.kept_strings = false;
                done()
            }
            Request::GetVar { ncid, varid, size } => {
                match self.set(ncid).vars[varid as usize].values.clone() {
                    Values::Bytes(data) => {
                        assert_eq!(data.len(), size);
                        Reply { data, ..done() }
                    }
                    _ => failed("not bytes"),
                }
            }
            Request::PutVar { ncid, varid, data } => {
                self.log.push("put");
                assert!(!self.defining && ncid == self.output);
                let data = data.to_vec();
                self.set(ncid).vars[varid as usize].values = Values::Bytes(data);
                done()
            }
            Request::Close { ncid } => {
                self.log.push("close");
                self.open[ncid as usize] = None;
                done()
            }
            Request::CloseMemio { ncid } => {
                self.log.push("close_memio");
                self.result = self.open[ncid as usize].take();
                Reply { data: vec![b'o', b'u', b't'], ..done() }
            }
        }
    }

    fn run(&mut self, mut merge: Merge<'_>) -> Result<Vec<u8>, String> {
        loop {
            match merge {
                Merge::Finished(result) => return result,
                Merge::Running(running) => {
                    let reply = self.perform(running.request());
                    merge = running.resume(reply);
                }
            }
        }
    }
}

/// Merges two datasets.
fn merge(a: Dataset, b: Dataset) -> Result<Dataset, String> {
    let mut library = Library::new(vec![a, b]);
    let bytes = library.run(combine_netcdf4_in_memory(&[0], &[1]))?;
    assert_eq!(bytes, b"out");
    assert!(library.open.iter().all(|d| d.is_none()));
    assert!(!library.kept_strings);
    Ok(library.result.expect("the output was closed"))
}

fn part_a() -> Dataset {
    let mut temperature = var("temperature", NC_SHORT, &[0, 1], Values::Bytes((0..12).collect()));
    temperature.atts.push(att("units", "K"));
    Dataset {
        dims: vec![dim("time", 2), dim("lat", 3)],
        atts: vec![att("title", "Test part A"), att("source", "a")],
        vars: vec![temperature],
    }
}

fn part_b() -> Dataset {
    let mut humidity = var("humidity", NC_BYTE, &[1, 0], Values::Bytes((20..26).collect()));
    humidity.atts.push(att("units", "%"));
    humidity.atts.push(att("long_name", "relative humidity"));
    Dataset {
        dims: vec![dim("time", 2), dim("lat", 3)],
        atts: vec![att("title", "Test part B"), att("history", "b")],
        vars: vec![humidity],
    }
}

#[test]
fn standard_merge() {
    let out = merge(part_a(), part_b()).unwrap();
    assert_eq!(out.dims, vec![dim("time", 2), dim("lat", 3)]);
    assert_eq!(
        out.atts,
        vec![att("title", "Test part A"), att("source", "a"), att("history", "b")]
    );
    assert_eq!(out.vars, vec![part_a().vars[0].clone(), part_b().vars[0].clone()]);
}

#[test]
fn dimension_conflict_fails() {
    let a = Dataset { dims: vec![dim("time", 2)], ..empty() };
    let b = Dataset { dims: vec![dim("lat", 4), dim("time", 5)], ..empty() };
    assert_eq!(
        merge(a, b).unwrap_err(),
        "Dimension conflict for `time`: existing length is 2, but part_b has length 5"
    );
}

#[test]
fn first_conflict_is_named() {
    let a = Dataset { dims: vec![dim("x", 1), dim("y", 2)], ..empty() };
    let b = Dataset { dims: vec![dim("y", 18446744073709551615), dim("x", 3)], ..empty() };
    assert_eq!(
        merge(a, b).unwrap_err(),
        "Dimension conflict for `y`: existing length is 2, but part_b has length 18446744073709551615"
    );
}

#[test]
fn duplicate_variable_keeps_first() {
    let a = part_a();
    let mut b = part_b();
    b.vars.push(var("temperature", NC_INT, &[0], Values::Bytes(vec![9; 8])));
    let out = merge(a.clone(), b.clone()).unwrap();
    assert_eq!(out.vars.len(), 2);
    assert_eq!(out.vars[0], a.vars[0]);
    assert_eq!(out.vars[1].name, "humidity");
    assert!(out.atts.contains(&att("history", "b")));
}

#[test]
fn duplicate_variable_of_any_type_is_skipped() {
    let a = part_a();
    let mut b = part_b();
    b.vars.insert(0, var("temperature", 33, &[0], Values::Unset));
    let out = merge(a, b).unwrap();
    assert_eq!(out.vars.len(), 2);
}

#[test]
fn disjoint_dimensions_merge() {
    let a = Dataset {
        dims: vec![dim("x", 2)],
        vars: vec![var("u", NC_BYTE, &[0], Values::Bytes(vec![1, 2]))],
        ..empty()
    };
    let b = Dataset {
        dims: vec![dim("y", 1), dim("z", 3)],
        vars: vec![
            var("v", NC_BYTE, &[1], Values::Bytes(vec![3, 4, 5])),
            var("w", NC_UBYTE, &[0, 1], Values::Bytes(vec![6, 7, 8])),
        ],
        ..empty()
    };
    let out = merge(a, b).unwrap();
    assert_eq!(out.dims, vec![dim("x", 2), dim("y", 1), dim("z", 3)]);
    assert_eq!(
        out.vars,
        vec![
            var("u", NC_BYTE, &[0], Values::Bytes(vec![1, 2])),
            var("v", NC_BYTE, &[2], Values::Bytes(vec![3, 4, 5])),
            var("w", NC_UBYTE, &[1, 2], Values::Bytes(vec![6, 7, 8])),
        ]
    );
}

#[test]
fn string_variables_merge() {
    let strings = |s: &[&str]| Values::Strings(s.iter().map(|x| x.to_string()).collect());
    let mut station = var("station", NC_STRING, &[0], strings(&["north", "süd"]));
    station.atts.push(att("role", "label"));
    let a = Dataset { dims: vec![dim("n", 2)], vars: vec![station.clone()], ..empty() };
    let b = Dataset { vars: vec![var("note", NC_STRING, &[], strings(&["one"]))], ..empty() };
    let out = merge(a, b).unwrap();
    assert_eq!(out.vars, vec![station, var("note", NC_STRING, &[], strings(&["one"]))]);
}

#[test]
fn scalar_and_empty_variables_merge() {
    let a = Dataset {
        vars: vec![var("pi", NC_DOUBLE, &[], Values::Bytes(vec![1; 8]))],
        ..empty()
    };
    let b = Dataset {
        dims: vec![dim("none", 0)],
        vars: vec![
            var("nothing", NC_FLOAT, &[0], Values::Bytes(vec![])),
            var("silence", NC_STRING, &[0], Values::Strings(vec![])),
        ],
        ..empty()
    };
    let out = merge(a.clone(), b.clone()).unwrap();
    assert_eq!(out.dims, b.dims);
    assert_eq!(out.vars, vec![a.vars[0].clone(), b.vars[0].clone(), b.vars[1].clone()]);
}

#[test]
fn every_primitive_type_merges() {
    let types = [
        NC_BYTE, NC_CHAR, NC_SHORT, NC_INT, NC_FLOAT, NC_DOUBLE, NC_UBYTE, NC_USHORT, NC_UINT,
        NC_INT64, NC_UINT64,
    ];
    let mut a = Dataset { dims: vec![dim("n", 3)], ..empty() };
    for t in types {
        let values = Values::Bytes(vec![t as u8; 3 * type_size(t)]);
        a.vars.push(var(&format!("v{t}"), t, &[0], values));
    }
    let out = merge(a.clone(), empty()).unwrap();
    assert_eq!(out, a);
}

#[test]
fn large_merge() {
    let many = |prefix: &str| Dataset {
        dims: (0..300).map(|i| dim(&format!("{prefix}d{i}"), 1 + i % 3)).collect(),
        atts: (0..300).map(|i| att(&format!("{prefix}a{i}"), "v")).collect(),
        vars: (0..300)
            .map(|i| {
                let mut v = var(
                    &format!("{prefix}v{i}"),
                    NC_SHORT,
                    &[i, 299 - i],
                    Values::Bytes(vec![7; 2 * (1 + i as usize % 3) * (1 + (299 - i as usize) % 3)]),
                );
                v.atts.push(att("units", "m"));
                v
            })
            .collect(),
    };
    let (a, b) = (many("a"), many("b"));
    let out = merge(a.clone(), b.clone()).unwrap();
    assert_eq!(out.dims.len(), 600);
    assert_eq!(out.atts.len(), 600);
    assert_eq!(out.vars[..300], a.vars[..]);
    assert_eq!(out.vars[300].dims, vec![300, 599]);
    assert_eq!(out.vars[599].values, b.vars[299].values);
}

#[test]
fn merge_with_itself_gives_it_back() {
    assert_eq!(merge(part_a(), part_a()).unwrap(), part_a());
}

#[test]
fn merging_is_associative() {
    let a = part_a();
    let mut b = part_b();
    b.dims.push(dim("x", 2));
    b.vars.push(var("temperature", NC_BYTE, &[2], Values::Bytes(vec![1, 2])));
    b.vars.push(var("wind", NC_BYTE, &[2, 0], Values::Bytes(vec![1, 2, 3, 4])));
    let c = Dataset {
        dims: vec![dim("y", 1), dim("x", 2), dim("lat", 3)],
        atts: vec![att("history", "c"), att("author", "c")],
        vars: vec![
            var("wind", NC_BYTE, &[0], Values::Bytes(vec![9])),
            var("rain", NC_BYTE, &[0, 2, 1], Values::Bytes(vec![5; 6])),
        ],
    };
    let left = merge(merge(a.clone(), b.clone()).unwrap(), c.clone()).unwrap();
    let right = merge(a, merge(b, c).unwrap()).unwrap();
    assert_eq!(left, right);
    assert_eq!(left.dims, vec![dim("time", 2), dim("lat", 3), dim("x", 2), dim("y", 1)]);
    let names: Vec<&str> = left.vars.iter().map(|v| v.name.as_str()).collect();
    assert_eq!(names, vec!["temperature", "humidity", "wind", "rain"]);
    assert_eq!(left.vars[2].dims, vec![2, 0]);
    assert_eq!(left.vars[3].dims, vec![3, 1, 2]);
}

#[test]
fn duplicate_variables_of_part_b_do_not_matter() {
    let plain = merge(part_a(), part_b()).unwrap();
    let duplicates = [
        var("temperature", NC_INT, &[0], Values::Bytes(vec![9; 8])),
        var("temperature", 40, &[0, 0], Values::Unset),
        var("temperature", NC_STRING, &[], Values::Strings(vec!["t".into()])),
    ];
    for duplicate in duplicates {
        for position in [0, 1] {
            let mut b = part_b();
            b.vars.insert(position, duplicate.clone());
            assert_eq!(merge(part_a(), b).unwrap(), plain);
        }
    }
}

#[test]
fn part_b_fills_an_empty_part_a() {
    assert_eq!(merge(empty(), part_b()).unwrap(), part_b());
}

#[test]
fn nothing_merges_with_nothing() {
    assert_eq!(merge(empty(), empty()).unwrap(), empty());
}

#[test]
fn unsupported_type_fails() {
    let mut a = part_a();
    a.vars.push(var("blob", 13, &[0], Values::Unset));
    assert_eq!(
        merge(a, part_b()).unwrap_err(),
        "Variable `blob` from part_a uses unsupported type 13. This implementation supports \
         primitive numeric/char and string NetCDF types only."
    );
    let mut b = part_b();
    b.vars.insert(0, var("opaque", -7, &[0], Values::Unset));
    assert_eq!(
        merge(part_a(), b).unwrap_err(),
        "Variable `opaque` from part_b uses unsupported type -7. This implementation supports \
         primitive numeric/char and string NetCDF types only."
    );
}

#[test]
fn unknown_dimension_fails() {
    let mut a = part_a();
    a.vars.push(var("stray", NC_INT, &[0, 2], Values::Unset));
    assert_eq!(
        merge(a, empty()).unwrap_err(),
        "Variable `stray` references unknown dimension id 2"
    );
    let mut b = part_b();
    b.vars.push(var("stray", NC_INT, &[-1], Values::Unset));
    assert_eq!(
        merge(empty(), b).unwrap_err(),
        format!("Variable `stray` references unknown dimension id {}", usize::MAX)
    );
}

#[test]
fn too_large_variable_fails() {
    let a = Dataset {
        dims: vec![dim("n", usize::MAX / 2), dim("three", 3)],
        vars: vec![var("huge", NC_BYTE, &[0, 1], Values::Unset)],
        ..empty()
    };
    assert_eq!(merge(a, empty()).unwrap_err(), "Variable `huge` is too large");
    let b = Dataset {
        dims: vec![dim("n", usize::MAX / 2)],
        vars: vec![var("wide", NC_DOUBLE, &[0], Values::Unset)],
        ..empty()
    };
    assert_eq!(merge(empty(), b).unwrap_err(), "Variable `wide` is too large");
}

#[test]
fn calls_come_in_order() {
    let mut library = Library::new(vec![part_a(), part_b()]);
    library.run(combine_netcdf4_in_memory(&[0], &[1])).unwrap();
    assert_eq!(
        library.log,
        vec![
            "lock", "open", "open", "create", "def_dim", "def_dim", "copy_att", "copy_att",
            "copy_att", "def_var", "copy_att", "def_var", "copy_att", "copy_att", "enddef", "put",
            "put", "close", "close", "close_memio",
        ]
    );
}

/// Runs a merge in which the call number `n` fails, and gives the error.
fn failing(a: &Dataset, b: &Dataset, n: usize) -> Option<String> {
    let mut library = Library::new(vec![a.clone(), b.clone()]);
    let mut merge = combine_netcdf4_in_memory(&[0], &[1]);
    let mut calls = 0;
    loop {
        match merge {
            Merge::Finished(Ok(_)) => return None,
            Merge::Finished(Err(e)) => {
                let string_write = e.starts_with("Could not write string data");
                assert_eq!(calls, if string_write { n + 2 } else { n + 1 });
                return Some(e);
            }
            Merge::Running(running) => {
                let reply = if calls == n {
                    failed("NetCDF: boom")
                } else {
                    library.perform(running.request())
                };
                merge = running.resume(reply);
                calls += 1;
            }
        }
    }
}

#[test]
fn every_failed_call_ends_the_merge() {
    let mut a = part_a();
    a.dims.truncate(1);
    a.atts.truncate(1);
    a.vars[0] = var("t", NC_BYTE, &[0], Values::Bytes(vec![1, 2]));
    a.vars[0].atts.push(att("units", "K"));
    let b = Dataset {
        dims: vec![dim("time", 2)],
        vars: vec![var("s", NC_STRING, &[0], Values::Strings(vec!["x".into(), "y".into()]))],
        ..empty()
    };
    let contexts = [
        "Could not open part_a from memory",
        "Could not open part_b from memory",
        "Could not create output NetCDF-4 file in memory",
        "Could not inspect file structure for part_a",
        "Could not read dimension 0 from part_a",
        "Could not define output dimension `time`",
        "Could not inspect file structure for part_b",
        "Could not read dimension 0 from part_b",
        "Could not inspect file structure for part_a",
        "Could not read attribute name 0",
        "Could not copy global attribute `title` from part_a",
        "Could not inspect file structure for part_b",
        "Could not inspect file structure for part_a",
        "Could not inspect variable 0 from part_a",
        "Could not define output variable `t`",
        "Could not read attribute name 0",
        "Could not copy attribute `units` for variable `t`",
        "Could not inspect file structure for part_b",
        "Could not inspect variable 0 from part_b",
        "Could not define output variable `s`",
        "Could not leave define mode",
        "Could not inspect variable data for varid 0 from part_a",
        "Could not get size for NetCDF type 1",
        "Could not inspect dimension length for variable `t`",
        "Could not read data for variable `t` from part_a",
        "Could not write data for variable `t` to output",
        "Could not inspect variable data for varid 0 from part_b",
        "Could not get size for NetCDF type 12",
        "Could not inspect dimension length for variable `s`",
        "Could not read string data for variable `s` from part_b",
        "Could not write string data for variable `s` to output",
        "Could not free string data for variable `s`",
        "Could not close part_a",
        "Could not close part_b",
        "Could not close output memory NetCDF",
    ];
    assert_eq!(failing(&a, &b, 0).unwrap(), "Could not acquire NetCDF-C lock");
    for (i, context) in contexts.iter().enumerate() {
        assert_eq!(failing(&a, &b, i + 1).unwrap(), format!("{context}: NetCDF: boom"));
    }
    assert_eq!(failing(&a, &b, contexts.len() + 1), None);
}

#[test]
fn unwritten_strings_are_freed_whatever_comes_of_it() {
    let a = Dataset {
        vars: vec![var("s", NC_STRING, &[], Values::Strings(vec!["x".into()]))],
        ..empty()
    };
    let mut library = Library::new(vec![a, empty()]);
    let mut merge = combine_netcdf4_in_memory(&[0], &[1]);
    loop {
        match merge {
            Merge::Finished(result) => {
                assert_eq!(
                    result.unwrap_err(),
                    "Could not write string data for variable `s` to output: disk of air"
                );
                break;
            }
            Merge::Running(running) => {
                let reply = match running.request() {
                    Request::PutVarString { .. } => failed("disk of air"),
                    Request::FreeString { count } => {
                        assert_eq!(count, 1);
                        failed("cannot free")
                    }
                    other => library.perform(other),
                };
                merge = running.resume(reply);
            }
        }
    }
}

#[test]
fn empty_output_fails() {
    let mut library = Library::new(vec![part_a(), part_b()]);
    let mut merge = combine_netcdf4_in_memory(&[0], &[1]);
    loop {
        match merge {
            Merge::Finished(result) => {
                assert_eq!(result.unwrap_err(), "NetCDF-C returned empty output memory");
                break;
            }
            Merge::Running(running) => {
                let reply = match running.request() {
                    Request::CloseMemio { .. } => done(),
                    other => library.perform(other),
                };
                merge = running.resume(reply);
            }
        }
    }
}

#[test]
fn first_calls_open_the_inputs() {
    let (a, b) = ([5u8, 6], [7u8]);
    let Merge::Running(lock) = combine_netcdf4_in_memory(&a, &b) else { panic!() };
    assert_eq!(lock.request(), Request::Lock);
    let Merge::Running(open_a) = lock.resume(done()) else { panic!() };
    assert_eq!(
        open_a.request(),
        Request::OpenMem { path: "memory_part_a", mode: 0, memory: &[5, 6] }
    );
    let Merge::Running(open_b) = open_a.resume(Reply { id: 40, ..done() }) else { panic!() };
    assert_eq!(
        open_b.request(),
        Request::OpenMem { path: "memory_part_b", mode: 0, memory: &[7] }
    );
    let Merge::Running(create) = open_b.resume(Reply { id: 50, ..done() }) else { panic!() };
    assert_eq!(
        create.request(),
        Request::CreateMem { path: "memory_combined", mode: 4096, initial_size: 16387 }
    );
    let Merge::Running(dims) = create.resume(Reply { id: 60, ..done() }) else { panic!() };
    assert_eq!(dims.request(), Request::Inq { ncid: 40 });
}

#[test]
fn name_that_is_not_utf8_ends_the_merge() {
    let Merge::Running(m) = combine_netcdf4_in_memory(&[0], &[1]) else { panic!() };
    let Merge::Running(m) = m.resume(done()) else { panic!() };
    let Merge::Running(m) = m.resume(Reply { id: 1, ..done() }) else { panic!() };
    let Merge::Running(m) = m.resume(Reply { id: 2, ..done() }) else { panic!() };
    let Merge::Running(m) = m.resume(Reply { id: 3, ..done() }) else { panic!() };
    let Merge::Running(m) = m.resume(Reply { ndims: 1, ..done() }) else { panic!() };
    assert_eq!(m.request(), Request::InqDim { ncid: 1, dimid: 0 });
    let Merge::Finished(result) = m.resume(Reply { name: vec![b'x', 0xff, 0], ..done() }) else {
        panic!()
    };
    assert_eq!(
        result.unwrap_err(),
        "Invalid UTF-8 from NetCDF name: invalid utf-8 sequence of 1 bytes from index 1"
    );
}
