use vstd::prelude::*;
use crate::error::Error;
use crate::kv::{obj_get, parse_u64, parsed_u64, spec_obj_get, KvValue};

verus! {

/// One branch entry of a depot: which manifest a named release channel
/// points at.  All fields arrive as text and stay text.
#[derive(Debug)]
pub struct Manifest {
    /// Release channel name.
    pub branch: String,
    /// Manifest GID, as text.
    pub gid: String,
    /// Total size, as text.
    pub size: String,
    /// Download size, as text.
    pub download: String,
    /// Whether the entry came from the encrypted subtree.
    pub encrypted: bool,
}

impl Manifest {
    /// The GID as a number, when the text is a decimal number.
    pub fn gid(&self) -> (r: Option<u64>)
        ensures
            r == parsed_u64(self.gid@),
    {
        parse_u64(self.gid.as_str())
    }
}

/// A named release channel of an application.
#[derive(Debug)]
pub struct Branch {
    pub name: String,
    pub buildid: Option<u32>,
    pub description: Option<String>,
    pub pwdrequired: bool,
    pub timeupdated: Option<u32>,
    pub sc_schinese: Option<String>,
}

impl Branch {
    pub fn new(name: String) -> (r: Branch)
        ensures
            r.name == name,
            r.buildid is None,
            r.description is None,
            !r.pwdrequired,
            r.timeupdated is None,
            r.sc_schinese is None,
    {
        Branch {
            name,
            buildid: None,
            description: None,
            pwdrequired: false,
            timeupdated: None,
            sc_schinese: None,
        }
    }
}

/// The object pairs of the first value, when there is one and it is an
/// object.
pub open spec fn head_obj(value: Seq<KvValue>) -> Option<Seq<(String, Vec<KvValue>)>> {
    if value.len() > 0 && value[0] is Obj {
        Option::Some(value[0]->Obj_0@)
    } else {
        Option::None
    }
}

/// The first value of `key` when it is a string leaf; empty otherwise.
pub open spec fn field_str(data: Seq<(String, Vec<KvValue>)>, key: Seq<char>) -> Seq<char> {
    match spec_obj_get(data, key) {
        Option::Some(vs) => {
            if vs@.len() > 0 && vs@[0] is Str {
                vs@[0]->Str_0@
            } else {
                Seq::empty()
            }
        },
        Option::None => Seq::empty(),
    }
}

/// The plain values of one branch entry: branch name, gid, size,
/// download, encrypted flag.
pub type BranchEntry = (Seq<char>, Seq<char>, Seq<char>, Seq<char>, bool);

/// The plain values a branch subtree entry parses to.
pub open spec fn branch_entry(e: (String, Vec<KvValue>), encrypted: bool) -> BranchEntry {
    let data = head_obj(e.1@)->Some_0;
    (
        e.0@,
        field_str(data, "gid"@),
        field_str(data, "size"@),
        field_str(data, "download"@),
        encrypted,
    )
}

/// Parsing the branch subtree named `kind` cannot fail: the head of
/// the depot's values is an object, and if the subtree is present, its
/// head is an object whose every entry's values start with an object.
pub open spec fn manifests_ok(value: Seq<KvValue>, kind: Seq<char>) -> bool {
    &&& head_obj(value) is Some
    &&& match spec_obj_get(head_obj(value)->Some_0, kind) {
        Option::None => true,
        Option::Some(sub) => {
            &&& head_obj(sub@) is Some
            &&& forall|i: int|
                0 <= i < head_obj(sub@)->Some_0.len() ==> head_obj(
                    (#[trigger] head_obj(sub@)->Some_0[i]).1@,
                ) is Some
        },
    }
}

/// The branch entries the subtree named `kind` parses to; empty when
/// the subtree is absent.
pub open spec fn manifests_entries(value: Seq<KvValue>, kind: Seq<char>, encrypted: bool) -> Seq<
    BranchEntry,
> {
    match spec_obj_get(head_obj(value)->Some_0, kind) {
        Option::None => Seq::empty(),
        Option::Some(sub) => {
            match head_obj(sub@) {
                Option::Some(entries) => entries.map_values(
                    |e: (String, Vec<KvValue>)| branch_entry(e, encrypted),
                ),
                Option::None => Seq::empty(),
            }
        },
    }
}

/// A parsed branch entry carries exactly these plain values.
pub open spec fn manifest_matches(m: Manifest, t: BranchEntry) -> bool {
    &&& m.branch@ == t.0
    &&& m.gid@ == t.1
    &&& m.size@ == t.2
    &&& m.download@ == t.3
    &&& m.encrypted == t.4
}

/// Both branch subtrees of a depot parse.
pub open spec fn depot_parse_ok(value: Seq<KvValue>) -> bool {
    manifests_ok(value, "manifests"@) && manifests_ok(value, "encryptedmanifests"@)
}

/// All branch entries of a depot: the plain subtree first, then the
/// encrypted one.
pub open spec fn depot_entries(value: Seq<KvValue>) -> Seq<BranchEntry> {
    manifests_entries(value, "manifests"@, false) + manifests_entries(
        value,
        "encryptedmanifests"@,
        true,
    )
}

/// Reads the first value of `key` as a string, or the empty string.
fn field_get(data: &Vec<(String, Vec<KvValue>)>, key: &str) -> (r: String)
    ensures
        r@ == field_str(data@, key@),
{
    match obj_get(data, key) {
        Some(vs) => {
            if vs.len() > 0 {
                match vs[0].get_str() {
                    Some(s) => s.clone(),
                    None => String::new(),
                }
            } else {
                String::new()
            }
        },
        None => String::new(),
    }
}

/// One depot of an application: the unit of keying, with its branch
/// entries.
#[derive(Debug)]
pub struct Depot {
    pub app_id: u32,
    pub depot_id: u32,
    pub manifests: Vec<Manifest>,
}

impl Depot {
    pub fn new(app_id: u32, depot_id: u32) -> (r: Depot)
        ensures
            r.app_id == app_id,
            r.depot_id == depot_id,
            r.manifests@.len() == 0,
    {
        Depot { app_id, depot_id, manifests: Vec::new() }
    }

    /// Parses one branch subtree into `manifests`, marking every entry
    /// with the given encrypted flag.  A missing subtree adds nothing;
    /// a malformed one fails with `NoneOption` and adds nothing.
    fn parse_manifests(&mut self, value: &Vec<KvValue>, kind: &str, encrypted: bool) -> (r:
        Result<(), Error>)
        ensures
            r is Ok <==> manifests_ok(value@, kind@),
            r is Err ==> r == Err::<(), Error>(Error::NoneOption) && *final(self) == *old(self),
            r is Ok ==> {
                let entries = manifests_entries(value@, kind@, encrypted);
                &&& final(self).app_id == old(self).app_id
                &&& final(self).depot_id == old(self).depot_id
                &&& final(self).manifests@.len() == old(self).manifests@.len() + entries.len()
                &&& forall|j: int|
                    0 <= j < old(self).manifests@.len() ==> #[trigger] final(self).manifests@[j]
                        == old(self).manifests@[j]
                &&& forall|j: int|
                    0 <= j < entries.len() ==> manifest_matches(
                        #[trigger] final(self).manifests@[old(self).manifests@.len() + j],
                        entries[j],
                    )
            },
    {
        if value.len() == 0 {
            return Err(Error::NoneOption);
        }
        let fields = match value[0].get_obj() {
            Some(f) => f,
            None => {
                return Err(Error::NoneOption);
            },
        };
        let sub = match obj_get(fields, kind) {
            Some(v) => v,
            None => {
                return Ok(());
            },
        };
        if sub.len() == 0 {
            return Err(Error::NoneOption);
        }
        let entries = match sub[0].get_obj() {
            Some(e) => e,
            None => {
                return Err(Error::NoneOption);
            },
        };
        let ghost especs = manifests_entries(value@, kind@, encrypted);
        let n = entries.len();
        let mut added: Vec<Manifest> = Vec::new();
        let mut i: usize = 0;
        while i < n
            invariant
                head_obj(value@) is Some,
                spec_obj_get(head_obj(value@)->Some_0, kind@) is Some,
                head_obj(spec_obj_get(head_obj(value@)->Some_0, kind@)->Some_0@) == Option::Some(
                    entries@,
                ),
                especs == manifests_entries(value@, kind@, encrypted),
                n == entries@.len(),
                0 <= i <= n,
                especs.len() == n,
                forall|j: int|
                    0 <= j < n ==> #[trigger] especs[j] == branch_entry(entries@[j], encrypted),
                forall|j: int|
                    0 <= j < i ==> head_obj((#[trigger] entries@[j]).1@) is Some,
                added@.len() == i,
                forall|j: int|
                    0 <= j < i ==> manifest_matches(#[trigger] added@[j], especs[j]),
            decreases n - i,
        {
            let values = &entries[i].1;
            if values.len() == 0 {
                return Err(Error::NoneOption);
            }
            let data = match values[0].get_obj() {
                Some(d) => d,
                None => {
                    return Err(Error::NoneOption);
                },
            };
            let m = Manifest {
                branch: entries[i].0.clone(),
                gid: field_get(data, "gid"),
                size: field_get(data, "size"),
                download: field_get(data, "download"),
                encrypted,
            };
            added.push(m);
            i = i + 1;
        }
        let mut added = added;
        self.manifests.append(&mut added);
        Ok(())
    }

    /// Parses both branch subtrees of a depot: the plain one, then the
    /// encrypted one.
    pub fn parse(&mut self, value: &Vec<KvValue>) -> (r: Result<(), Error>)
        ensures
            r is Ok <==> depot_parse_ok(value@),
            r is Err ==> r == Err::<(), Error>(Error::NoneOption),
            !manifests_ok(value@, "manifests"@) ==> *final(self) == *old(self),
            r is Ok ==> {
                let entries = depot_entries(value@);
                &&& final(self).app_id == old(self).app_id
                &&& final(self).depot_id == old(self).depot_id
                &&& final(self).manifests@.len() == old(self).manifests@.len() + entries.len()
                &&& forall|j: int|
                    0 <= j < old(self).manifests@.len() ==> #[trigger] final(self).manifests@[j]
                        == old(self).manifests@[j]
                &&& forall|j: int|
                    0 <= j < entries.len() ==> manifest_matches(
                        #[trigger] final(self).manifests@[old(self).manifests@.len() + j],
                        entries[j],
                    )
            },
    {
        self.parse_manifests(value, "manifests", false)?;
        let ghost mid = self.manifests@;
        match self.parse_manifests(value, "encryptedmanifests", true) {
            Ok(()) => {
                proof {
                    let base = old(self).manifests@.len() as int;
                    let e1 = manifests_entries(value@, "manifests"@, false);
                    let e2 = manifests_entries(value@, "encryptedmanifests"@, true);
                    assert forall|j: int|
                        0 <= j < depot_entries(value@).len() implies manifest_matches(
                        #[trigger] self.manifests@[base + j],
                        depot_entries(value@)[j],
                    ) by {
                        if j < e1.len() {
                            assert(depot_entries(value@)[j] == e1[j]);
                            assert(self.manifests@[base + j] == mid[base + j]);
                            assert(manifest_matches(mid[base + j], e1[j]));
                        } else {
                            assert(depot_entries(value@)[j] == e2[j - e1.len()]);
                            assert(base + j == mid.len() + (j - e1.len()));
                            assert(manifest_matches(
                                self.manifests@[mid.len() + (j - e1.len())],
                                e2[j - e1.len()],
                            ));
                        }
                    }
                }
                Ok(())
            },
            Err(e) => Err(e),
        }
    }
}

/// A depot key is numeric: a decimal number that fits an unsigned
/// 32-bit id.
pub open spec fn is_depot_key(k: Seq<char>) -> bool {
    parsed_u64(k) is Some && parsed_u64(k)->Some_0 <= u32::MAX
}

/// The plain values of one depot: its id and its branch entries.
pub type DepotEntry = (u32, Seq<BranchEntry>);

/// The depots the first `k` entries of the depots subtree parse to:
/// one per numeric key, in order; other keys are skipped.
pub open spec fn depots_prefix(entries: Seq<(String, Vec<KvValue>)>, k: int) -> Seq<DepotEntry>
    decreases k,
{
    if k <= 0 {
        Seq::empty()
    } else {
        let rest = depots_prefix(entries, k - 1);
        if is_depot_key(entries[k - 1].0@) {
            rest + seq![
                (
                    parsed_u64(entries[k - 1].0@)->Some_0 as u32,
                    depot_entries(entries[k - 1].1@),
                ),
            ]
        } else {
            rest
        }
    }
}

/// Parsing an application's depots subtree cannot fail: the head of
/// the buffer's values is an object, and if a depots subtree is
/// present, its head is an object whose every numeric entry parses.
pub open spec fn depots_ok(value: Seq<KvValue>) -> bool {
    &&& head_obj(value) is Some
    &&& match spec_obj_get(head_obj(value)->Some_0, "depots"@) {
        Option::None => true,
        Option::Some(sub) => {
            &&& head_obj(sub@) is Some
            &&& forall|i: int|
                0 <= i < head_obj(sub@)->Some_0.len() && is_depot_key(
                    (#[trigger] head_obj(sub@)->Some_0[i]).0@,
                ) ==> depot_parse_ok(head_obj(sub@)->Some_0[i].1@)
        },
    }
}

/// The depots an application's buffer parses to; empty when the
/// subtree is absent.
pub open spec fn depots_parsed(value: Seq<KvValue>) -> Seq<DepotEntry> {
    match spec_obj_get(head_obj(value)->Some_0, "depots"@) {
        Option::None => Seq::empty(),
        Option::Some(sub) => {
            match head_obj(sub@) {
                Option::Some(entries) => depots_prefix(entries, entries.len() as int),
                Option::None => Seq::empty(),
            }
        },
    }
}

/// A parsed depot carries exactly these plain values.
pub open spec fn depot_matches(d: Depot, app_id: u32, t: DepotEntry) -> bool {
    &&& d.app_id == app_id
    &&& d.depot_id == t.0
    &&& d.manifests@.len() == t.1.len()
    &&& forall|j: int| 0 <= j < t.1.len() ==> manifest_matches(#[trigger] d.manifests@[j], t.1[j])
}

/// The depots of one application, as announced by the control plane's
/// product info.
#[derive(Debug)]
pub struct AppDepots {
    pub app_id: u32,
    pub depots: Vec<Depot>,
}

impl AppDepots {
    pub fn new(app_id: u32) -> (r: AppDepots)
        ensures
            r.app_id == app_id,
            r.depots@.len() == 0,
    {
        AppDepots { app_id, depots: Vec::new() }
    }

    /// Extracts the `depots` subtree of an application's key-value
    /// buffer: one depot per numeric key, each with its branch
    /// entries; non-numeric keys are skipped, a missing subtree adds
    /// nothing, and a malformed one fails with `NoneOption`.
    pub fn parse(&mut self, value: &Vec<KvValue>) -> (r: Result<(), Error>)
        ensures
            r is Ok <==> depots_ok(value@),
            r is Err ==> r == Err::<(), Error>(Error::NoneOption),
            final(self).app_id == old(self).app_id,
            r is Ok ==> {
                let parsed = depots_parsed(value@);
                &&& final(self).depots@.len() == old(self).depots@.len() + parsed.len()
                &&& forall|j: int|
                    0 <= j < old(self).depots@.len() ==> #[trigger] final(self).depots@[j]
                        == old(self).depots@[j]
                &&& forall|j: int|
                    0 <= j < parsed.len() ==> depot_matches(
                        #[trigger] final(self).depots@[old(self).depots@.len() + j],
                        old(self).app_id,
                        parsed[j],
                    )
            },
    {
        if value.len() == 0 {
            return Err(Error::NoneOption);
        }
        let fields = match value[0].get_obj() {
            Some(f) => f,
            None => {
                return Err(Error::NoneOption);
            },
        };
        let sub = match obj_get(fields, "depots") {
            Some(v) => v,
            None => {
                return Ok(());
            },
        };
        if sub.len() == 0 {
            return Err(Error::NoneOption);
        }
        let entries = match sub[0].get_obj() {
            Some(e) => e,
            None => {
                return Err(Error::NoneOption);
            },
        };
        let n = entries.len();
        let app_id = self.app_id;
        let mut added: Vec<Depot> = Vec::new();
        let mut i: usize = 0;
        while i < n
            invariant
                head_obj(value@) is Some,
                spec_obj_get(head_obj(value@)->Some_0, "depots"@) is Some,
                head_obj(spec_obj_get(head_obj(value@)->Some_0, "depots"@)->Some_0@)
                    == Option::Some(entries@),
                n == entries@.len(),
                0 <= i <= n,
                app_id == self.app_id,
                added@.len() == depots_prefix(entries@, i as int).len(),
                forall|j: int|
                    0 <= j < i ==> is_depot_key((#[trigger] entries@[j]).0@) ==> depot_parse_ok(
                        entries@[j].1@,
                    ),
                forall|j: int|
                    0 <= j < depots_prefix(entries@, i as int).len() ==> depot_matches(
                        #[trigger] added@[j],
                        app_id,
                        depots_prefix(entries@, i as int)[j],
                    ),
            decreases n - i,
        {
            let ghost pre = depots_prefix(entries@, i as int);
            let id = match parse_u64(entries[i].0.as_str()) {
                Some(v) if v <= u32::MAX as u64 => Some(v as u32),
                _ => None,
            };
            match id {
                Some(depot_id) => {
                    proof {
                        assert(is_depot_key(entries@[i as int].0@));
                    }
                    let mut depot = Depot::new(app_id, depot_id);
                    let ghost depot0 = depot;
                    match depot.parse(&entries[i].1) {
                        Ok(()) => (),
                        Err(e) => {
                            proof {
                                assert(!depot_parse_ok(entries@[i as int].1@));
                                assert(head_obj(
                                    spec_obj_get(head_obj(value@)->Some_0, "depots"@)->Some_0@,
                                )->Some_0[i as int] == entries@[i as int]);
                                assert(!depots_ok(value@));
                            }
                            return Err(e);
                        },
                    }
                    proof {
                        let dentries = depot_entries(entries@[i as int].1@);
                        assert forall|j: int| 0 <= j < dentries.len() implies manifest_matches(
                            #[trigger] depot.manifests@[j],
                            dentries[j],
                        ) by {
                            assert(manifest_matches(
                                depot.manifests@[depot0.manifests@.len() + j],
                                dentries[j],
                            ));
                        }
                        assert(depot_matches(depot, app_id, (depot_id, dentries)));
                    }
                    added.push(depot);
                },
                None => (),
            }
            proof {
                assert(depots_prefix(entries@, i as int + 1) == if is_depot_key(
                    entries@[i as int].0@,
                ) {
                    pre + seq![
                        (
                            parsed_u64(entries@[i as int].0@)->Some_0 as u32,
                            depot_entries(entries@[i as int].1@),
                        ),
                    ]
                } else {
                    pre
                });
            }
            i = i + 1;
        }
        let mut added = added;
        self.depots.append(&mut added);
        Ok(())
    }
}

} // verus!
