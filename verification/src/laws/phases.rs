//! What each part of the work makes of every answer, expected or not.

use vstd::prelude::*;
use crate::attributes::{AttStage, AttState, AttStep};
use crate::data::{DataStage, DataState, DataStep};
use crate::dimensions::{DimStage, DimState, DimStep, OutDims};
use crate::names::name_in;
use crate::protocol::{Answer, Call, Part};
use crate::text::decimal;
use crate::variables::{first_unknown, known_dim, DefineStage, DefineState, DefineStep};

verus! {

// ---- Dimensions.

/// Copying dimensions begins with the number of them; then each is read from the source, and the
/// new ones are defined in the output with their names and lengths.
pub proof fn law_dims_calls(s: DimState, part: Part, src: i32, dst: i32)
    ensures
        DimState::start(part, src, dst) == (DimState {
            part,
            src,
            dst,
            dim_map: Seq::empty(),
            stage: DimStage::Count,
        }),
        s.stage is Count ==> s.request() == (Call::Inq { ncid: s.src }),
        s.stage matches DimStage::Read { ndims, dimid } ==> s.request() == (Call::InqDim {
            ncid: s.src,
            dimid,
        }),
        s.stage matches DimStage::Define { ndims, dimid, name, len } ==> s.request()
            == (Call::DefDim { ncid: s.dst, name, len }),
{
}

/// A call that fails while dimensions are copied ends this with an error that says what was being
/// done, and leaves the known dimensions as they were.
pub proof fn law_dims_failed(s: DimState, out: OutDims, r: Answer)
    requires
        r.status != 0,
    ensures
        s.resume(out, r).0 == out,
        s.stage is Count ==> s.resume(out, r).1 == DimStep::Failed(
            "Could not inspect file structure for "@ + (if s.part is A {
                "part_a"@
            } else {
                "part_b"@
            }) + ": "@ + r.message,
        ),
        s.stage matches DimStage::Read { ndims, dimid } ==> s.resume(out, r).1 == DimStep::Failed(
            "Could not read dimension "@ + decimal(dimid as int) + " from "@ + (if s.part is A {
                "part_a"@
            } else {
                "part_b"@
            }) + ": "@ + r.message,
        ),
        s.stage matches DimStage::Define { ndims, dimid, name, len } ==> s.resume(out, r).1
            == DimStep::Failed(
            "Could not define output dimension `"@ + name + "`"@ + ": "@ + r.message,
        ),
{
}

/// As many dimensions are copied as were counted, from the first on, whatever else the count
/// found.
pub proof fn law_dims_counted(s: DimState, out: OutDims, r: Answer)
    requires
        s.stage is Count,
        r.status == 0,
    ensures
        s.resume(out, r).0 == out,
        r.ndims <= 0 ==> s.resume(out, r).1 == DimStep::Done(s.dim_map),
        r.ndims > 0 ==> s.resume(out, r).1 == DimStep::More(
            DimState { stage: DimStage::Read { ndims: r.ndims, dimid: 0 }, ..s },
        ),
{
}

/// A dimension that was read is defined under its name and length where the output has none of
/// that name, is matched with the one that it has where the lengths agree, and ends the copying
/// where they do not.
pub proof fn law_dims_read(
    s: DimState,
    out: OutDims,
    r: Answer,
    ndims: i32,
    dimid: i32,
    name: Seq<char>,
)
    requires
        s.stage == (DimStage::Read { ndims, dimid }),
        r.status == 0,
        name_in(r.name) == Ok::<Seq<char>, Seq<char>>(name),
    ensures
        s.resume(out, r).0 == out,
        !out.contains_key(name) ==> s.resume(out, r).1 == DimStep::More(
            DimState { stage: DimStage::Define { ndims, dimid, name, len: r.len }, ..s },
        ),
        out.contains_key(name) && out[name].0 != r.len ==> s.resume(out, r).1 == DimStep::Failed(
            "Dimension conflict for `"@ + name + "`: existing length is "@ + decimal(
                out[name].0 as int,
            ) + (", but "@ + (if s.part is A {
                "part_a"@
            } else {
                "part_b"@
            }) + " has length "@ + decimal(r.len as int)),
        ),
        out.contains_key(name) && out[name].0 == r.len && dimid + 1 < ndims ==> s.resume(out, r).1
            == DimStep::More(
            DimState {
                dim_map: s.dim_map.push(out[name].1),
                stage: DimStage::Read { ndims, dimid: (dimid + 1) as i32 },
                ..s
            },
        ),
        out.contains_key(name) && out[name].0 == r.len && dimid + 1 >= ndims ==> s.resume(out, r).1
            == DimStep::Done(s.dim_map.push(out[name].1)),
{
}

/// A dimension whose name cannot be read ends the copying with what is wrong with the name.
pub proof fn law_dims_unreadable(s: DimState, out: OutDims, r: Answer, e: Seq<char>)
    requires
        s.stage is Read,
        r.status == 0,
        name_in(r.name) == Err::<Seq<char>, Seq<char>>(e),
    ensures
        s.resume(out, r) == (out, DimStep::Failed(e)),
{
}

/// A dimension that was defined is known from then on, under the ID that it got.
pub proof fn law_dims_defined(
    s: DimState,
    out: OutDims,
    r: Answer,
    ndims: i32,
    dimid: i32,
    name: Seq<char>,
    len: usize,
)
    requires
        s.stage == (DimStage::Define { ndims, dimid, name, len }),
        r.status == 0,
    ensures
        s.resume(out, r).0 == out.insert(name, (len, r.id)),
        dimid + 1 < ndims ==> s.resume(out, r).1 == DimStep::More(
            DimState {
                dim_map: s.dim_map.push(r.id),
                stage: DimStage::Read { ndims, dimid: (dimid + 1) as i32 },
                ..s
            },
        ),
        dimid + 1 >= ndims ==> s.resume(out, r).1 == DimStep::Done(s.dim_map.push(r.id)),
{
}

// ---- Global attributes.

/// Copying global attributes begins with the number of them; then each is asked for its name, and
/// the new ones are copied from the source to the output.
pub proof fn law_atts_calls(s: AttState, part: Part, src: i32, dst: i32)
    ensures
        AttState::start(part, src, dst) == (AttState { part, src, dst, stage: AttStage::Count }),
        s.stage is Count ==> s.request() == (Call::Inq { ncid: s.src }),
        s.stage matches AttStage::Name { natts, attnum } ==> s.request() == (Call::InqAttName {
            ncid: s.src,
            varid: (-1) as i32,
            attnum,
        }),
        s.stage matches AttStage::Copy { natts, attnum, name } ==> s.request() == (Call::CopyAtt {
            src_ncid: s.src,
            src_varid: (-1) as i32,
            name,
            dst_ncid: s.dst,
            dst_varid: (-1) as i32,
        }),
{
}

/// A call that fails while global attributes are copied ends this with an error that says what was
/// being done.
pub proof fn law_atts_failed(s: AttState, copied: Set<Seq<char>>, r: Answer)
    requires
        r.status != 0,
    ensures
        s.resume(copied, r).0 == copied,
        s.stage is Count ==> s.resume(copied, r).1 == AttStep::Failed(
            "Could not inspect file structure for "@ + (if s.part is A {
                "part_a"@
            } else {
                "part_b"@
            }) + ": "@ + r.message,
        ),
        s.stage matches AttStage::Name { natts, attnum } ==> s.resume(copied, r).1
            == AttStep::Failed(
            "Could not read attribute name "@ + decimal(attnum as int) + ": "@ + r.message,
        ),
        s.stage matches AttStage::Copy { natts, attnum, name } ==> s.resume(copied, r).1
            == AttStep::Failed(
            "Could not copy global attribute `"@ + name + "` from "@ + (if s.part is A {
                "part_a"@
            } else {
                "part_b"@
            }) + ": "@ + r.message,
        ),
{
}

/// As many global attributes are gone through as were counted, from the first on, whatever else
/// the count found.
pub proof fn law_atts_counted(s: AttState, copied: Set<Seq<char>>, r: Answer)
    requires
        s.stage is Count,
        r.status == 0,
    ensures
        s.resume(copied, r).0 == copied,
        r.natts <= 0 ==> s.resume(copied, r).1 == AttStep::Done(()),
        r.natts > 0 ==> s.resume(copied, r).1 == AttStep::More(
            AttState { stage: AttStage::Name { natts: r.natts, attnum: 0 }, ..s },
        ),
{
}

/// An attribute is copied under its name unless one of that name was copied before; a name that
/// cannot be read ends the copying.
pub proof fn law_atts_named(s: AttState, copied: Set<Seq<char>>, r: Answer, natts: i32, attnum: i32)
    requires
        s.stage == (AttStage::Name { natts, attnum }),
        r.status == 0,
    ensures
        s.resume(copied, r).0 == copied,
        name_in(r.name) matches Err(e) ==> s.resume(copied, r).1 == AttStep::Failed(e),
        name_in(r.name) matches Ok(name) ==> {
            &&& !copied.contains(name) ==> s.resume(copied, r).1 == AttStep::More(
                AttState { stage: AttStage::Copy { natts, attnum, name }, ..s },
            )
            &&& copied.contains(name) && attnum + 1 < natts ==> s.resume(copied, r).1
                == AttStep::More(
                AttState { stage: AttStage::Name { natts, attnum: (attnum + 1) as i32 }, ..s },
            )
            &&& copied.contains(name) && attnum + 1 >= natts ==> s.resume(copied, r).1
                == AttStep::Done(())
        },
{
}

/// An attribute that was copied is known from then on, and the next one follows.
pub proof fn law_atts_copied(
    s: AttState,
    copied: Set<Seq<char>>,
    r: Answer,
    natts: i32,
    attnum: i32,
    name: Seq<char>,
)
    requires
        s.stage == (AttStage::Copy { natts, attnum, name }),
        r.status == 0,
    ensures
        s.resume(copied, r).0 == copied.insert(name),
        attnum + 1 < natts ==> s.resume(copied, r).1 == AttStep::More(
            AttState { stage: AttStage::Name { natts, attnum: (attnum + 1) as i32 }, ..s },
        ),
        attnum + 1 >= natts ==> s.resume(copied, r).1 == AttStep::Done(()),
{
}

// ---- Variable definitions.

/// Copying variable definitions begins with the number of them; then each is read from the source,
/// and the new ones are defined in the output, each followed by its attributes.
pub proof fn law_vars_calls(
    s: DefineState,
    part: Part,
    src: i32,
    dst: i32,
    dim_map: Seq<i32>,
)
    ensures
        DefineState::start(part, src, dst, dim_map) == (DefineState {
            part,
            src,
            dst,
            dim_map,
            pairs: Seq::empty(),
            stage: DefineStage::Count,
        }),
        s.stage is Count ==> s.request() == (Call::Inq { ncid: s.src }),
        s.stage matches DefineStage::Read { nvars, varid } ==> s.request() == (Call::InqVar {
            ncid: s.src,
            varid,
        }),
        s.stage matches DefineStage::Define { nvars, varid, name, xtype, dimids, natts }
            ==> s.request() == (Call::DefVar { ncid: s.dst, name, xtype, dimids }),
        s.stage matches DefineStage::NameAtt { nvars, varid, name, out_varid, natts, attnum }
            ==> s.request() == (Call::InqAttName { ncid: s.src, varid, attnum }),
        s.stage matches DefineStage::CopyAtt {
            nvars,
            varid,
            name,
            out_varid,
            natts,
            attnum,
            att_name,
        } ==> s.request() == (Call::CopyAtt {
            src_ncid: s.src,
            src_varid: varid,
            name: att_name,
            dst_ncid: s.dst,
            dst_varid: out_varid,
        }),
{
}

/// A call that fails while variable definitions are copied ends this with an error that says what
/// was being done.
pub proof fn law_vars_failed(s: DefineState, copied: Set<Seq<char>>, r: Answer)
    requires
        r.status != 0,
    ensures
        s.resume(copied, r).0 == copied,
        s.stage is Count ==> s.resume(copied, r).1 == DefineStep::Failed(
            "Could not inspect file structure for "@ + (if s.part is A {
                "part_a"@
            } else {
                "part_b"@
            }) + ": "@ + r.message,
        ),
        s.stage matches DefineStage::Read { nvars, varid } ==> s.resume(copied, r).1
            == DefineStep::Failed(
            "Could not inspect variable "@ + decimal(varid as int) + " from "@ + (if s.part is A {
                "part_a"@
            } else {
                "part_b"@
            }) + ": "@ + r.message,
        ),
        s.stage matches DefineStage::Define { nvars, varid, name, xtype, dimids, natts }
            ==> s.resume(copied, r).1 == DefineStep::Failed(
            "Could not define output variable `"@ + name + "`"@ + ": "@ + r.message,
        ),
        s.stage matches DefineStage::NameAtt { nvars, varid, name, out_varid, natts, attnum }
            ==> s.resume(copied, r).1 == DefineStep::Failed(
            "Could not read attribute name "@ + decimal(attnum as int) + ": "@ + r.message,
        ),
        s.stage matches DefineStage::CopyAtt {
            nvars,
            varid,
            name,
            out_varid,
            natts,
            attnum,
            att_name,
        } ==> s.resume(copied, r).1 == DefineStep::Failed(
            "Could not copy attribute `"@ + att_name + "` for variable `"@ + name + "`"@ + ": "@
                + r.message,
        ),
{
}

/// As many variables are gone through as were counted, from the first on, whatever else the count
/// found.
pub proof fn law_vars_counted(s: DefineState, copied: Set<Seq<char>>, r: Answer)
    requires
        s.stage is Count,
        r.status == 0,
    ensures
        s.resume(copied, r).0 == copied,
        r.nvars <= 0 ==> s.resume(copied, r).1 == DefineStep::Done(s.pairs),
        r.nvars > 0 ==> s.resume(copied, r).1 == DefineStep::More(
            DefineState { stage: DefineStage::Read { nvars: r.nvars, varid: 0 }, ..s },
        ),
{
}

/// A variable is skipped where one of its name was copied before, whatever its type and its
/// dimensions are, and the next one follows.
pub proof fn law_vars_skipped(
    s: DefineState,
    copied: Set<Seq<char>>,
    r: Answer,
    nvars: i32,
    varid: i32,
    name: Seq<char>,
)
    requires
        s.stage == (DefineStage::Read { nvars, varid }),
        r.status == 0,
        name_in(r.name) == Ok::<Seq<char>, Seq<char>>(name),
        copied.contains(name),
    ensures
        s.resume(copied, r).0 == copied,
        varid + 1 < nvars ==> s.resume(copied, r).1 == DefineStep::More(
            DefineState {
                stage: DefineStage::Read { nvars, varid: (varid + 1) as i32 },
                ..s
            },
        ),
        varid + 1 >= nvars ==> s.resume(copied, r).1 == DefineStep::Done(s.pairs),
{
}

/// A new variable is defined under its name and type, on the output dimension of each of its
/// dimensions, where the type is merged and all its dimensions are known.
pub proof fn law_vars_taken_up(
    s: DefineState,
    copied: Set<Seq<char>>,
    r: Answer,
    nvars: i32,
    varid: i32,
    name: Seq<char>,
)
    requires
        s.stage == (DefineStage::Read { nvars, varid }),
        r.status == 0,
        name_in(r.name) == Ok::<Seq<char>, Seq<char>>(name),
        !copied.contains(name),
        1 <= r.xtype <= 12,
        forall|i: int|
            0 <= i < r.dimids.len() ==> 0 <= #[trigger] r.dimids[i] < s.dim_map.len(),
    ensures
        s.resume(copied, r).0 == copied,
        s.resume(copied, r).1 == DefineStep::More(
            DefineState {
                stage: DefineStage::Define {
                    nvars,
                    varid,
                    name,
                    xtype: r.xtype,
                    dimids: Seq::new(r.dimids.len(), |i: int| s.dim_map[r.dimids[i] as int]),
                    natts: r.natts,
                },
                ..s
            },
        ),
{
}

/// A new variable ends the copying where its name cannot be read, where its type is not merged,
/// and where one of its dimensions is not known: the first such dimension is named.
pub proof fn law_vars_refused(
    s: DefineState,
    copied: Set<Seq<char>>,
    r: Answer,
    nvars: i32,
    varid: i32,
    i: int,
)
    requires
        s.stage == (DefineStage::Read { nvars, varid }),
        r.status == 0,
    ensures
        name_in(r.name) matches Err(e) ==> s.resume(copied, r) == (copied, DefineStep::Failed(e)),
        name_in(r.name) matches Ok(name) ==> {
            &&& !copied.contains(name) && !(1 <= r.xtype <= 12) ==> s.resume(copied, r) == (
                copied,
                DefineStep::Failed(
                    "Variable `"@ + name + "` from "@ + (if s.part is A {
                        "part_a"@
                    } else {
                        "part_b"@
                    }) + (" uses unsupported type "@ + decimal(r.xtype as int)
                        + ". This implementation supports primitive numeric/char and string NetCDF types only."@),
                ),
            )
            &&& !copied.contains(name) && 1 <= r.xtype <= 12 && 0 <= i < r.dimids.len() && !(0
                <= r.dimids[i] < s.dim_map.len()) && (forall|j: int|
                0 <= j < i ==> 0 <= #[trigger] r.dimids[j] < s.dim_map.len()) ==> s.resume(
                copied,
                r,
            ) == (
                copied,
                DefineStep::Failed(
                    "Variable `"@ + name + "` references unknown dimension id "@ + decimal(
                        if r.dimids[i] < 0 {
                            usize::MAX + 1 + r.dimids[i]
                        } else {
                            r.dimids[i] as int
                        },
                    ),
                ),
            )
        },
{
    if 0 <= i < r.dimids.len() && !(0 <= r.dimids[i] < s.dim_map.len()) && (forall|j: int|
        0 <= j < i ==> 0 <= #[trigger] r.dimids[j] < s.dim_map.len()) {
        assert(first_unknown(s.dim_map, r.dimids, i));
        let k = choose|k: int| first_unknown(s.dim_map, r.dimids, k);
        assert(k == i) by {
            assert(!known_dim(s.dim_map, r.dimids[k]));
            assert(!known_dim(s.dim_map, r.dimids[i]));
        }
        assert(!known_dim(s.dim_map, r.dimids[i]));
    }
}

/// A variable that was defined gets its attributes, all of them from the first on; without any it
/// is copied, and the next variable follows.
pub proof fn law_vars_defined(
    s: DefineState,
    copied: Set<Seq<char>>,
    r: Answer,
    nvars: i32,
    varid: i32,
    name: Seq<char>,
    xtype: i32,
    dimids: Seq<i32>,
    natts: i32,
)
    requires
        s.stage == (DefineStage::Define { nvars, varid, name, xtype, dimids, natts }),
        r.status == 0,
    ensures
        natts > 0 ==> s.resume(copied, r) == (
            copied,
            DefineStep::More(
                DefineState {
                    stage: DefineStage::NameAtt {
                        nvars,
                        varid,
                        name,
                        out_varid: r.id,
                        natts,
                        attnum: 0,
                    },
                    ..s
                },
            ),
        ),
        natts <= 0 && varid + 1 < nvars ==> s.resume(copied, r) == (
            copied.insert(name),
            DefineStep::More(
                DefineState {
                    pairs: s.pairs.push((varid, r.id)),
                    stage: DefineStage::Read { nvars, varid: (varid + 1) as i32 },
                    ..s
                },
            ),
        ),
        natts <= 0 && varid + 1 >= nvars ==> s.resume(copied, r) == (
            copied.insert(name),
            DefineStep::Done(s.pairs.push((varid, r.id))),
        ),
{
}

/// Every attribute of a variable is copied under its name; one whose name cannot be read ends the
/// copying.
pub proof fn law_vars_att_named(
    s: DefineState,
    copied: Set<Seq<char>>,
    r: Answer,
    nvars: i32,
    varid: i32,
    name: Seq<char>,
    out_varid: i32,
    natts: i32,
    attnum: i32,
)
    requires
        s.stage == (DefineStage::NameAtt { nvars, varid, name, out_varid, natts, attnum }),
        r.status == 0,
    ensures
        name_in(r.name) matches Err(e) ==> s.resume(copied, r) == (copied, DefineStep::Failed(e)),
        name_in(r.name) matches Ok(att_name) ==> s.resume(copied, r) == (
            copied,
            DefineStep::More(
                DefineState {
                    stage: DefineStage::CopyAtt {
                        nvars,
                        varid,
                        name,
                        out_varid,
                        natts,
                        attnum,
                        att_name,
                    },
                    ..s
                },
            ),
        ),
{
}

/// After an attribute comes the next one, and after the last one the variable is copied and the
/// next variable follows.
pub proof fn law_vars_att_copied(
    s: DefineState,
    copied: Set<Seq<char>>,
    r: Answer,
    nvars: i32,
    varid: i32,
    name: Seq<char>,
    out_varid: i32,
    natts: i32,
    attnum: i32,
    att_name: Seq<char>,
)
    requires
        s.stage == (DefineStage::CopyAtt {
            nvars,
            varid,
            name,
            out_varid,
            natts,
            attnum,
            att_name,
        }),
        r.status == 0,
    ensures
        attnum + 1 < natts ==> s.resume(copied, r) == (
            copied,
            DefineStep::More(
                DefineState {
                    stage: DefineStage::NameAtt {
                        nvars,
                        varid,
                        name,
                        out_varid,
                        natts,
                        attnum: (attnum + 1) as i32,
                    },
                    ..s
                },
            ),
        ),
        attnum + 1 >= natts && varid + 1 < nvars ==> s.resume(copied, r) == (
            copied.insert(name),
            DefineStep::More(
                DefineState {
                    pairs: s.pairs.push((varid, out_varid)),
                    stage: DefineStage::Read { nvars, varid: (varid + 1) as i32 },
                    ..s
                },
            ),
        ),
        attnum + 1 >= natts && varid + 1 >= nvars ==> s.resume(copied, r) == (
            copied.insert(name),
            DefineStep::Done(s.pairs.push((varid, out_varid))),
        ),
{
}

// ---- Values.

/// Copying values takes up each variable in turn: it is inspected, its type and its dimensions are
/// measured, and its values go from the source variable to the output variable.
pub proof fn law_data_calls(s: DataState, part: Part, src: i32, dst: i32, pairs: Seq<(i32, i32)>)
    ensures
        pairs.len() == 0 ==> DataState::start(part, src, dst, pairs) == DataStep::Done(()),
        pairs.len() > 0 ==> DataState::start(part, src, dst, pairs) == DataStep::More(
            DataState { part, src, dst, pairs, at: 0, stage: DataStage::Inspect },
        ),
        s.stage is Inspect ==> s.request() == (Call::InqVar {
            ncid: s.src,
            varid: s.pairs[s.at].0,
        }),
        s.stage matches DataStage::TypeSize { name, xtype, dimids } ==> s.request()
            == (Call::InqType { ncid: s.src, xtype }),
        s.stage matches DataStage::DimLen { name, xtype, elem_size, dimids, i, count }
            ==> s.request() == (Call::InqDimLen { ncid: s.src, dimid: dimids[i] }),
        s.stage matches DataStage::GetStrings { name, count } ==> s.request()
            == (Call::GetVarString { ncid: s.src, varid: s.pairs[s.at].0, count }),
        s.stage is PutStrings ==> s.request() == (Call::PutVarString {
            ncid: s.dst,
            varid: s.pairs[s.at].1,
        }),
        s.stage matches DataStage::FreeStrings { name, count, put_status, put_message }
            ==> s.request() == (Call::FreeString { count }),
        s.stage matches DataStage::Get { name, size } ==> s.request() == (Call::GetVar {
            ncid: s.src,
            varid: s.pairs[s.at].0,
            size,
        }),
        s.stage matches DataStage::Put { name, data } ==> s.request() == (Call::PutVar {
            ncid: s.dst,
            varid: s.pairs[s.at].1,
            data,
        }),
{
}

/// A call that fails while values are copied ends this with an error that says what was being
/// done. Strings that could not be written are freed first, and the error is then that of the
/// writing, whatever came of the freeing.
pub proof fn law_data_failed(s: DataState, r: Answer)
    requires
        r.status != 0,
    ensures
        s.stage is Inspect ==> s.resume(r) == DataStep::Failed(
            "Could not inspect variable data for varid "@ + decimal(s.pairs[s.at].0 as int)
                + " from "@ + (if s.part is A {
                "part_a"@
            } else {
                "part_b"@
            }) + ": "@ + r.message,
        ),
        s.stage matches DataStage::TypeSize { name, xtype, dimids } ==> s.resume(r)
            == DataStep::Failed(
            "Could not get size for NetCDF type "@ + decimal(xtype as int) + ": "@ + r.message,
        ),
        s.stage matches DataStage::DimLen { name, xtype, elem_size, dimids, i, count }
            ==> s.resume(r) == DataStep::Failed(
            "Could not inspect dimension length for variable `"@ + name + "`"@ + ": "@ + r.message,
        ),
        s.stage matches DataStage::GetStrings { name, count } ==> s.resume(r) == DataStep::Failed(
            "Could not read string data for variable `"@ + name + "` from "@ + (if s.part is A {
                "part_a"@
            } else {
                "part_b"@
            }) + ": "@ + r.message,
        ),
        s.stage matches DataStage::FreeStrings { name, count, put_status, put_message }
            ==> put_status == 0 ==> s.resume(r) == DataStep::Failed(
            "Could not free string data for variable `"@ + name + "`"@ + ": "@ + r.message,
        ),
        s.stage matches DataStage::Get { name, size } ==> s.resume(r) == DataStep::Failed(
            "Could not read data for variable `"@ + name + "` from "@ + (if s.part is A {
                "part_a"@
            } else {
                "part_b"@
            }) + ": "@ + r.message,
        ),
        s.stage matches DataStage::Put { name, data } ==> s.resume(r) == DataStep::Failed(
            "Could not write data for variable `"@ + name + "` to output"@ + ": "@ + r.message,
        ),
{
}

/// A variable that was inspected has its type measured; one whose name cannot be read ends the
/// copying.
pub proof fn law_data_inspected(s: DataState, r: Answer)
    requires
        s.stage is Inspect,
        r.status == 0,
    ensures
        name_in(r.name) matches Err(e) ==> s.resume(r) == DataStep::Failed(e),
        name_in(r.name) matches Ok(name) ==> s.resume(r) == DataStep::More(
            DataState {
                stage: DataStage::TypeSize { name, xtype: r.xtype, dimids: r.dimids },
                ..s
            },
        ),
{
}

/// The number of elements is one times the length of every dimension, in their order, and where it
/// is more than can be counted the copying ends.
pub proof fn law_data_measured(
    s: DataState,
    r: Answer,
    name: Seq<char>,
    xtype: i32,
    elem_size: usize,
    dimids: Seq<i32>,
    i: int,
    count: usize,
)
    requires
        r.status == 0,
    ensures
        s.stage == (DataStage::TypeSize { name, xtype, dimids }) && dimids.len() > 0 ==> s.resume(r)
            == DataStep::More(
            DataState {
                stage: DataStage::DimLen {
                    name,
                    xtype,
                    elem_size: r.len,
                    dimids,
                    i: 0,
                    count: 1,
                },
                ..s
            },
        ),
        s.stage == (DataStage::DimLen { name, xtype, elem_size, dimids, i, count }) && count * r.len
            > usize::MAX ==> s.resume(r) == DataStep::Failed(
            "Variable `"@ + name + "` is too large"@,
        ),
        s.stage == (DataStage::DimLen { name, xtype, elem_size, dimids, i, count }) && count * r.len
            <= usize::MAX && i + 1 < dimids.len() ==> s.resume(r) == DataStep::More(
            DataState {
                stage: DataStage::DimLen {
                    name,
                    xtype,
                    elem_size,
                    dimids,
                    i: i + 1,
                    count: (count * r.len) as usize,
                },
                ..s
            },
        ),
{
}

/// Once a variable is measured its values are read: strings one by one, everything else as one
/// buffer of as many bytes as its elements have, and where that is more than can be counted the
/// copying ends.
pub proof fn law_data_read(
    s: DataState,
    r: Answer,
    name: Seq<char>,
    xtype: i32,
    elem_size: usize,
    dimids: Seq<i32>,
    i: int,
    count: usize,
)
    requires
        r.status == 0,
        ({
            ||| s.stage == (DataStage::TypeSize { name, xtype, dimids }) && dimids.len() == 0
                && elem_size == r.len && count == 1
            ||| exists|before: usize|
                s.stage == (DataStage::DimLen { name, xtype, elem_size, dimids, i, count: before })
                    && i + 1 >= dimids.len() && count == #[trigger] (before * r.len)
        }),
    ensures
        xtype == 12 ==> s.resume(r) == DataStep::More(
            DataState { stage: DataStage::GetStrings { name, count }, ..s },
        ),
        xtype != 12 && count * elem_size <= usize::MAX ==> s.resume(r) == DataStep::More(
            DataState {
                stage: DataStage::Get { name, size: (count * elem_size) as usize },
                ..s
            },
        ),
        xtype != 12 && count * elem_size > usize::MAX ==> s.resume(r) == DataStep::Failed(
            "Variable `"@ + name + "` is too large"@,
        ),
{
}

/// The bytes that were read are written as they are. Strings that were read are written, and then
/// freed whatever came of the writing.
pub proof fn law_data_passed_on(s: DataState, r: Answer)
    ensures
        r.status == 0 ==> (s.stage matches DataStage::Get { name, size } ==> s.resume(r)
            == DataStep::More(
            DataState { stage: DataStage::Put { name, data: r.data }, ..s },
        )),
        r.status == 0 ==> (s.stage matches DataStage::GetStrings { name, count } ==> s.resume(r)
            == DataStep::More(DataState { stage: DataStage::PutStrings { name, count }, ..s })),
        s.stage matches DataStage::PutStrings { name, count } ==> s.resume(r) == DataStep::More(
            DataState {
                stage: DataStage::FreeStrings {
                    name,
                    count,
                    put_status: r.status,
                    put_message: r.message,
                },
                ..s
            },
        ),
        s.stage matches DataStage::FreeStrings { name, count, put_status, put_message }
            ==> put_status != 0 ==> s.resume(r) == DataStep::Failed(
            "Could not write string data for variable `"@ + name + "` to output"@ + ": "@
                + put_message,
        ),
{
}

/// After the values of a variable come those of the next one, up to the last.
pub proof fn law_data_next(s: DataState, r: Answer)
    requires
        r.status == 0,
        s.stage is Put || (s.stage matches DataStage::FreeStrings { put_status, .. } && put_status
            == 0),
    ensures
        s.at + 1 < s.pairs.len() ==> s.resume(r) == DataStep::More(
            DataState { at: s.at + 1, stage: DataStage::Inspect, ..s },
        ),
        s.at + 1 >= s.pairs.len() ==> s.resume(r) == DataStep::Done(()),
{
}

} // verus!
