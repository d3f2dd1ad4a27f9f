//! The uploads that a server keeps, and what it answers.

use vstd::hash_map::StringHashMap;
use vstd::prelude::*;
use crate::format::{checked, confirm_is_netcdf4, is_netcdf4};
use crate::merge::{combine_netcdf4_in_memory, Merge, MergeModel};
use crate::text::{join2, join4};

verus! {

/// The largest upload that is taken in, in gibibytes.
pub const MAX_UPLOAD_SIZE_GIB: u64 = 1;

/// The largest upload that is taken in, in bytes.
pub open spec fn max_upload() -> int {
    MAX_UPLOAD_SIZE_GIB * 1073741824
}

/// The bytes of an upload that was accepted. They are a NetCDF-4 file and not too large.
pub struct Upload {
    bytes: Vec<u8>,
}

impl View for Upload {
    type V = Seq<u8>;

    closed spec fn view(&self) -> Seq<u8> {
        self.bytes@
    }
}

/// Whether `bytes` can be those of an upload that was accepted.
pub open spec fn acceptable(bytes: Seq<u8>) -> bool {
    is_netcdf4(bytes) && bytes.len() <= max_upload()
}

impl Upload {
    #[verifier::type_invariant]
    spec fn inv(self) -> bool {
        acceptable(self.bytes@)
    }

    /// The bytes of the upload.
    pub fn bytes(&self) -> (b: &[u8])
        ensures
            b@ == self@,
            acceptable(b@),
    {
        proof {
            use_type_invariant(self);
        }
        self.bytes.as_slice()
    }
}

/// The uploads under one name. Either can come before the other.
pub struct Parts {
    part_a: Option<Upload>,
    part_b: Option<Upload>,
}

/// The model of the uploads under one name.
#[verifier::ext_equal]
pub struct PartsModel {
    pub part_a: Option<Seq<u8>>,
    pub part_b: Option<Seq<u8>>,
}

impl PartsModel {
    /// What a name has before its first upload.
    pub open spec fn empty() -> PartsModel {
        PartsModel { part_a: None, part_b: None }
    }

    /// Whether all uploads were accepted.
    pub open spec fn acceptable(self) -> bool {
        &&& self.part_a matches Some(a) ==> acceptable(a)
        &&& self.part_b matches Some(b) ==> acceptable(b)
    }
}

/// The bytes of `upload`, where there is one.
pub open spec fn upload_bytes(upload: Option<Upload>) -> Option<Seq<u8>> {
    match upload {
        Some(u) => Some(u@),
        None => None,
    }
}

impl View for Parts {
    type V = PartsModel;

    closed spec fn view(&self) -> PartsModel {
        PartsModel {
            part_a: upload_bytes(self.part_a),
            part_b: upload_bytes(self.part_b),
        }
    }
}

impl Default for Parts {
    fn default() -> (p: Parts)
        ensures
            p@ == PartsModel::empty(),
    {
        Parts { part_a: None, part_b: None }
    }
}

/// The uploads of all names.
pub struct Store {
    slots: StringHashMap<usize>,
    parts: Vec<Parts>,
}

impl View for Store {
    type V = Map<Seq<char>, PartsModel>;

    closed spec fn view(&self) -> Map<Seq<char>, PartsModel> {
        Map::new(
            |name: Seq<char>| self.slots@.contains_key(name),
            |name: Seq<char>| self.parts@[self.slots@[name] as int]@,
        )
    }
}

/// What is stored under `name`; nothing where the name was never used.
pub open spec fn stored(store: Map<Seq<char>, PartsModel>, name: Seq<char>) -> PartsModel {
    if store.contains_key(name) {
        store[name]
    } else {
        PartsModel::empty()
    }
}

/// The store after `bytes` came in as part A of `name`.
pub open spec fn with_part_a(
    store: Map<Seq<char>, PartsModel>,
    name: Seq<char>,
    bytes: Seq<u8>,
) -> Map<Seq<char>, PartsModel> {
    store.insert(name, PartsModel { part_a: Some(bytes), ..stored(store, name) })
}

/// The store after `bytes` came in as part B of `name`.
pub open spec fn with_part_b(
    store: Map<Seq<char>, PartsModel>,
    name: Seq<char>,
    bytes: Seq<u8>,
) -> Map<Seq<char>, PartsModel> {
    store.insert(name, PartsModel { part_b: Some(bytes), ..stored(store, name) })
}

/// The two files to combine for `name`, or the error that says what is missing.
pub open spec fn parts_for(store: Map<Seq<char>, PartsModel>, name: Seq<char>) -> Result<
    (Seq<u8>, Seq<u8>),
    Seq<char>,
> {
    if !store.contains_key(name) {
        Err("No upload found for name="@ + name)
    } else {
        match (store[name].part_a, store[name].part_b) {
            (None, _) => Err("Part_a is empty for name="@ + name),
            (Some(_), None) => Err("Part_b is empty for name="@ + name),
            (Some(a), Some(b)) => Ok((a, b)),
        }
    }
}

/// What an upload is accepted as, from its body or the problem of reading that.
pub open spec fn accepted(body: Result<Seq<u8>, Seq<char>>) -> Result<Seq<u8>, Seq<char>> {
    match body {
        Err(problem) => Err("Could not read request body: "@ + problem),
        Ok(bytes) => match checked(bytes) {
            Err(e) => Err(e),
            Ok(()) => Ok(bytes),
        },
    }
}

/// The answer to a request for the combined file of `name`, from how the merge ended.
pub open spec fn combined_answer(
    name: Seq<char>,
    merged: Result<Seq<u8>, Seq<char>>,
) -> Result<Seq<u8>, Seq<char>> {
    match merged {
        Ok(bytes) => Ok(bytes),
        Err(e) => Err(
            "Could not combine NetCDF files for name="@ + name + ". Error: "@ + e,
        ),
    }
}

/// `r` with its bytes and its text viewed as sequences.
pub open spec fn bytes_or_text(r: Result<Vec<u8>, String>) -> Result<Seq<u8>, Seq<char>> {
    match r {
        Ok(bytes) => Ok(bytes@),
        Err(e) => Err(e@),
    }
}

/// What a server answers at its root.
pub fn index() -> (r: &'static str)
    ensures
        r@ == "Server is running."@,
{
    "Server is running."
}

/// Takes in the body of an upload. `body` is the bytes that were read, or the problem of reading
/// them. Only NetCDF-4 files are accepted.
pub fn accept_upload(body: Result<Vec<u8>, String>) -> (r: Result<Upload, String>)
    requires
        body matches Ok(bytes) ==> bytes@.len() <= max_upload(),
    ensures
        match r {
            Ok(upload) => accepted(bytes_or_text(body)) == Ok::<Seq<u8>, Seq<char>>(upload@),
            Err(e) => accepted(bytes_or_text(body)) == Err::<Seq<u8>, Seq<char>>(e@),
        },
        body matches Ok(bytes) ==> (r is Ok <==> checked(bytes@) is Ok),
        body matches Ok(bytes) ==> (r matches Ok(upload) ==> upload@ == bytes@),
        body matches Ok(bytes) ==> (r matches Err(e) ==> checked(bytes@) == Err::<(), Seq<char>>(
            e@,
        )),
        body matches Err(problem) ==> (r matches Err(e) && e@ == "Could not read request body: "@
            + problem@),
{
    match body {
        Err(problem) => Err(join2("Could not read request body: ", problem.as_str())),
        Ok(bytes) => match confirm_is_netcdf4(bytes.as_slice()) {
            Err(e) => Err(e),
            Ok(()) => Ok(Upload { bytes }),
        },
    }
}

impl Store {
    /// Every name has a slot of its own, and all uploads were accepted.
    spec fn slotted(self) -> bool {
        &&& forall|i: int|
            0 <= i < self.parts@.len() ==> (#[trigger] self.parts@[i])@.acceptable()
        &&& forall|name: Seq<char>| #[trigger]
            self.slots@.contains_key(name) ==> self.slots@[name] < self.parts@.len()
        &&& forall|m: Seq<char>, n: Seq<char>|
            #![trigger self.slots@[m], self.slots@[n]]
            self.slots@.contains_key(m) && self.slots@.contains_key(n) && self.slots@[m]
                == self.slots@[n] ==> m == n
    }

    /// Every name has a slot of its own and at least one part, and all uploads were accepted.
    pub closed spec fn wf(self) -> bool {
        &&& self.slotted()
        &&& forall|name: Seq<char>| #[trigger]
            self@.contains_key(name) ==> self@[name] != PartsModel::empty()
    }

    /// Every name that is stored has at least one part.
    pub proof fn law_every_name_has_a_part(self, name: Seq<char>)
        requires
            self.wf(),
            self@.contains_key(name),
        ensures
            self@[name].part_a is Some || self@[name].part_b is Some,
    {
    }

    /// Only NetCDF-4 files that are not too large are ever stored.
    pub proof fn law_only_netcdf4_is_stored(self, name: Seq<char>)
        requires
            self.wf(),
        ensures
            stored(self@, name).acceptable(),
    {
        if self@.contains_key(name) {
            assert(self.slots@.contains_key(name));
            assert(self.parts@[self.slots@[name] as int]@.acceptable());
        }
    }

    /// A store without uploads.
    pub fn new() -> (s: Store)
        ensures
            s.wf(),
            s@ == Map::<Seq<char>, PartsModel>::empty(),
    {
        let s = Store { slots: StringHashMap::new(), parts: Vec::new() };
        assert(s@ =~= Map::<Seq<char>, PartsModel>::empty());
        s
    }

    /// The slot of `name`, which gets an empty one where it had none.
    fn slot(&mut self, name: String) -> (i: usize)
        requires
            old(self).slotted(),
        ensures
            final(self).slotted(),
            final(self).slots@.contains_key(name@),
            final(self).slots@[name@] == i,
            final(self)@ == old(self)@.insert(name@, stored(old(self)@, name@)),
    {
        match self.slots.get(name.as_str()) {
            Some(i) => {
                let i: usize = *i;
                assert(self@ =~= old(self)@.insert(name@, stored(old(self)@, name@)));
                i
            },
            None => {
                let i: usize = self.parts.len();
                self.parts.push(Parts::default());
                self.slots.insert(name, i);
                assert(self@ =~= old(self)@.insert(name@, stored(old(self)@, name@)));
                i
            },
        }
    }
}

/// Stores `upload` as part A of `name`, in place of an earlier one.
pub fn upload_part_a(store: &mut Store, name: String, upload: Upload) -> (r: &'static str)
    requires
        old(store).wf(),
    ensures
        final(store).wf(),
        final(store)@ == with_part_a(old(store)@, name@, upload@),
        final(store)@.dom() == old(store)@.dom().insert(name@),
        final(store)@[name@].part_a == Some(upload@),
        old(store)@.contains_key(name@) ==> final(store)@[name@].part_b
            == old(store)@[name@].part_b,
        !old(store)@.contains_key(name@) ==> final(store)@[name@].part_b is None,
        forall|other: Seq<char>|
            other != name@ ==> #[trigger] final(store)@[other] == old(store)@[other],
        r@ == "stored part_a"@,
{
    let ghost key = name@;
    let i: usize = store.slot(name);
    let ghost before = *store;
    proof {
        use_type_invariant(&upload);
    }
    store.parts[i].part_a = Some(upload);
    assert(store@ =~= before@.insert(key, PartsModel { part_a: Some(upload@), ..before@[key] }));
    assert(store@ =~= with_part_a(old(store)@, key, upload@));
    "stored part_a"
}

/// Stores `upload` as part B of `name`, in place of an earlier one.
pub fn upload_part_b(store: &mut Store, name: String, upload: Upload) -> (r: &'static str)
    requires
        old(store).wf(),
    ensures
        final(store).wf(),
        final(store)@ == with_part_b(old(store)@, name@, upload@),
        final(store)@.dom() == old(store)@.dom().insert(name@),
        final(store)@[name@].part_b == Some(upload@),
        old(store)@.contains_key(name@) ==> final(store)@[name@].part_a
            == old(store)@[name@].part_a,
        !old(store)@.contains_key(name@) ==> final(store)@[name@].part_a is None,
        forall|other: Seq<char>|
            other != name@ ==> #[trigger] final(store)@[other] == old(store)@[other],
        r@ == "stored part_b"@,
{
    let ghost key = name@;
    let i: usize = store.slot(name);
    let ghost before = *store;
    proof {
        use_type_invariant(&upload);
    }
    store.parts[i].part_b = Some(upload);
    assert(store@ =~= before@.insert(key, PartsModel { part_b: Some(upload@), ..before@[key] }));
    assert(store@ =~= with_part_b(old(store)@, key, upload@));
    "stored part_b"
}

/// Begins to combine the two files that are stored under `name`.
pub fn read_combined<'s>(store: &'s Store, name: &str) -> (r: Result<Merge<'s>, String>)
    requires
        store.wf(),
    ensures
        match parts_for(store@, name@) {
            Ok((a, b)) => r matches Ok(m) && m@ == MergeModel::start(a, b) && acceptable(a)
                && acceptable(b),
            Err(e) => r matches Err(message) && message@ == e,
        },
        r is Ok <==> store@.contains_key(name@) && store@[name@].part_a is Some
            && store@[name@].part_b is Some,
        r matches Ok(m) ==> m@ == MergeModel::start(
            store@[name@].part_a->0,
            store@[name@].part_b->0,
        ),
        r matches Err(e) ==> e@ == (if !store@.contains_key(name@) {
            "No upload found for name="@
        } else if store@[name@].part_a is None {
            "Part_a is empty for name="@
        } else {
            "Part_b is empty for name="@
        }) + name@,
{
    match store.slots.get(name) {
        None => Err(join2("No upload found for name=", name)),
        Some(i) => {
            let parts = &store.parts[*i];
            match &parts.part_a {
                None => Err(join2("Part_a is empty for name=", name)),
                Some(a) => match &parts.part_b {
                    None => Err(join2("Part_b is empty for name=", name)),
                    Some(b) => Ok(combine_netcdf4_in_memory(a.bytes(), b.bytes())),
                },
            }
        },
    }
}

/// The answer to a request for the combined file of `name`, from how the merge ended.
pub fn combined_response(name: &str, merged: Result<Vec<u8>, String>) -> (r: Result<
    Vec<u8>,
    String,
>)
    ensures
        bytes_or_text(r) == combined_answer(name@, bytes_or_text(merged)),
        r is Ok <==> merged is Ok,
        merged matches Ok(bytes) ==> (r matches Ok(answer) && answer@ == bytes@),
        merged matches Err(problem) ==> (r matches Err(e) && e@
            == "Could not combine NetCDF files for name="@ + name@ + ". Error: "@ + problem@),
{
    match merged {
        Ok(bytes) => Ok(bytes),
        Err(e) => Err(
            join4("Could not combine NetCDF files for name=", name, ". Error: ", e.as_str()),
        ),
    }
}

} // verus!
