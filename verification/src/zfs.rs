//! The ZFS controller's logic: the exact command lines each operation
//! runs, and the interpretation of the structured listing the `zfs`
//! binary prints. The commands themselves run outside; this module plans
//! them and digests their output.

use vstd::prelude::*;
use vstd::string::*;

use crate::text::dec_digits;
use crate::text::str_eq;
use crate::text::u64_to_string;

verus! {

/// Whether an entry is a filesystem or a block device.
#[derive(Debug, Clone, Copy, PartialEq, Eq)]
pub enum ZFSKind {
    Dataset,
    Volume,
}

/// A dataset to create or the new shape of one: a name inside the pool
/// and an optional quota.
#[derive(Debug, Clone, PartialEq, Eq)]
pub struct Dataset {
    pub name: String,
    pub quota: Option<u64>,
}

/// A rename and/or reshape of a dataset.
#[derive(Debug, Clone, PartialEq, Eq)]
pub struct ModifyDataset {
    pub name: String,
    pub modifications: Dataset,
}

/// A volume to create: a name inside the pool and a size in bytes.
#[derive(Debug, Clone, PartialEq, Eq)]
pub struct Volume {
    pub name: String,
    pub size: u64,
}

/// A rename and/or resize of a volume.
#[derive(Debug, Clone, PartialEq, Eq)]
pub struct ModifyVolume {
    pub name: String,
    pub modifications: Volume,
}

/// One external command: the argument list handed to the `zfs` binary.
#[derive(Debug, Clone, PartialEq, Eq)]
pub struct ZfsCommand {
    pub args: Vec<String>,
}

/// The character sequences of a command's arguments.
pub open spec fn args_v(c: ZfsCommand) -> Seq<Seq<char>> {
    crate::text::strs(c.args@)
}

/// One entry's properties in a listing.
#[derive(Debug, Clone, PartialEq, Eq)]
pub struct ZFSListItemProperties {
    pub used: ZFSValue<u64>,
    pub available: ZFSValue<u64>,
    pub referenced: ZFSValue<u64>,
    pub mountpoint: ZFSValue<String>,
}

/// One entry of `zfs list -j`.
#[derive(Debug, Clone, PartialEq, Eq)]
pub struct ZFSListItem {
    pub name: String,
    pub typ: String,
    pub pool: String,
    pub createtxg: u64,
    pub properties: ZFSListItemProperties,
}

/// The structured output of `zfs list -j`.
#[derive(Debug, Clone, PartialEq, Eq)]
pub struct ZFSList {
    pub output_version: ZFSOutputInfo,
    pub datasets: Vec<ZFSListItem>,
}

/// The version header of the structured output.
#[derive(Debug, Clone, PartialEq, Eq)]
pub struct ZFSOutputInfo {
    pub command: String,
    pub vers_major: u64,
    pub vers_minor: u64,
}

/// One property value with its source annotation.
#[derive(Debug, Clone, PartialEq, Eq)]
pub struct ZFSValue<T> {
    pub value: T,
    pub source: ZFSSource,
}

/// Where a property value came from.
#[derive(Debug, Clone, PartialEq, Eq)]
pub struct ZFSSource {
    pub typ: String,
    pub data: String,
}

/// One entry of `zfs get -j` for a property of type `T`.
#[derive(Debug, Clone, PartialEq, Eq)]
pub struct ZFSGetItem<T> {
    pub name: String,
    pub typ: String,
    pub pool: String,
    pub createtxg: u64,
    pub properties: Vec<(String, ZFSValue<T>)>,
}

/// The structured output of `zfs get -j`.
#[derive(Debug, Clone, PartialEq, Eq)]
pub struct ZFSGet<T> {
    pub output_version: ZFSOutputInfo,
    pub datasets: Vec<(String, ZFSGetItem<T>)>,
}

/// The property value a `zfs get` output reports for a dataset, if any.
pub open spec fn get_value_spec<T>(
    ds: Seq<(String, ZFSGetItem<T>)>,
    dataset: Seq<char>,
    property: Seq<char>,
) -> Option<T>
    decreases ds.len(),
{
    if ds.len() == 0 {
        None
    } else if ds[0].0@ == dataset {
        prop_value_spec(ds[0].1.properties@, property)
    } else {
        get_value_spec(ds.skip(1), dataset, property)
    }
}

/// The value of a property among an entry's properties, if any.
pub open spec fn prop_value_spec<T>(ps: Seq<(String, ZFSValue<T>)>, property: Seq<char>) -> Option<
    T,
>
    decreases ps.len(),
{
    if ps.len() == 0 {
        None
    } else if ps[0].0@ == property {
        Some(ps[0].1.value)
    } else {
        prop_value_spec(ps.skip(1), property)
    }
}

/// The value of one property among an entry's properties.
fn prop_value<T: Copy>(ps: &Vec<(String, ZFSValue<T>)>, property: &str) -> (r: Option<T>)
    ensures
        r == prop_value_spec(ps@, property@),
{
    let mut j: usize = 0;
    proof {
        assert(ps@.skip(0) =~= ps@);
    }
    while j < ps.len()
        invariant
            j <= ps@.len(),
            prop_value_spec(ps@, property@) == prop_value_spec(ps@.skip(j as int), property@),
        decreases ps@.len() - j,
    {
        proof {
            assert(ps@.skip(j as int)[0] == ps@[j as int]);
            assert(ps@.skip(j as int).skip(1) =~= ps@.skip(j + 1));
        }
        if str_eq(ps[j].0.as_str(), property) {
            return Some(ps[j].1.value);
        }
        j = j + 1;
    }
    proof {
        assert(ps@.skip(j as int).len() == 0);
    }
    None
}

/// Extracts a copyable property value from a `zfs get` output.
pub fn get_value<T: Copy>(out: &ZFSGet<T>, dataset: &str, property: &str) -> (r: Option<T>)
    ensures
        r == get_value_spec(out.datasets@, dataset@, property@),
{
    let mut i: usize = 0;
    proof {
        assert(out.datasets@.skip(0) =~= out.datasets@);
    }
    while i < out.datasets.len()
        invariant
            i <= out.datasets@.len(),
            get_value_spec(out.datasets@, dataset@, property@) == get_value_spec(
                out.datasets@.skip(i as int),
                dataset@,
                property@,
            ),
        decreases out.datasets@.len() - i,
    {
        proof {
            assert(out.datasets@.skip(i as int)[0] == out.datasets@[i as int]);
            assert(out.datasets@.skip(i as int).skip(1) =~= out.datasets@.skip(i + 1));
        }
        if str_eq(out.datasets[i].0.as_str(), dataset) {
            return prop_value(&out.datasets[i].1.properties, property);
        }
        i = i + 1;
    }
    proof {
        assert(out.datasets@.skip(i as int).len() == 0);
    }
    None
}

/// The size a listing reports upward for a dataset: the quota when one is
/// set, the available space otherwise.
pub fn dataset_size(quota: u64, available: u64) -> (r: u64)
    ensures
        r == (if quota != 0 {
            quota
        } else {
            available
        }),
{
    if quota != 0 {
        quota
    } else {
        available
    }
}

/// Whether `s` starts with `prefix`.
pub fn str_starts_with(s: &str, prefix: &str) -> (r: bool)
    ensures
        r == (s@.len() >= prefix@.len() && s@.take(prefix@.len() as int) == prefix@),
{
    let sn = s.unicode_len();
    let pn = prefix.unicode_len();
    if sn < pn {
        return false;
    }
    let mut i: usize = 0;
    while i < pn
        invariant
            i <= pn,
            pn <= sn,
            sn == s@.len(),
            pn == prefix@.len(),
            forall|j: int| 0 <= j < i ==> s@[j] == prefix@[j],
        decreases pn - i,
    {
        let a = s.get_char(i);
        let b = prefix.get_char(i);
        if a != b {
            proof {
                assert(s@.take(pn as int)[i as int] == s@[i as int]);
            }
            return false;
        }
        i = i + 1;
    }
    proof {
        assert(s@.take(pn as int) =~= prefix@);
    }
    true
}

/// A controller over one pool: every operation is a plan of `zfs`
/// commands for the caller to run.
#[derive(Debug, Clone, PartialEq, Eq)]
pub struct Pool {
    pub name: String,
}

/// `pool/name`.
pub open spec fn qualified(pool: Seq<char>, name: Seq<char>) -> Seq<char> {
    pool + "/"@ + name
}

impl Pool {
    /// A controller over the named pool.
    pub fn new(name: &str) -> (r: Self)
        ensures
            r.name@ == name@,
    {
        Pool { name: String::from_str(name) }
    }

    /// `pool/name` as a string.
    fn qualify(&self, name: &str) -> (r: String)
        ensures
            r@ == qualified(self.name@, name@),
    {
        let mut out = self.name.clone();
        out.append("/");
        out.append(name);
        proof {
            assert(out@ =~= qualified(self.name@, name@));
        }
        out
    }

    /// The command that lists the pool's entries structurally.
    pub fn list_command(&self) -> (r: ZfsCommand)
        ensures
            args_v(r) == seq!["list"@, "-j"@, "--json-int"@],
    {
        let mut args: Vec<String> = Vec::new();
        args.push(String::from_str("list"));
        args.push(String::from_str("-j"));
        args.push(String::from_str("--json-int"));
        proof {
            assert(args_v(ZfsCommand { args }) =~= seq!["list"@, "-j"@, "--json-int"@]);
        }
        ZfsCommand { args }
    }

    /// The command that reads one property of one entry structurally.
    pub fn get_command(&self, name: &str, property: &str) -> (r: ZfsCommand)
        ensures
            args_v(r) == seq![
                "get"@,
                "-j"@,
                "--json-int"@,
                property@,
                qualified(self.name@, name@),
            ],
    {
        let mut args: Vec<String> = Vec::new();
        args.push(String::from_str("get"));
        args.push(String::from_str("-j"));
        args.push(String::from_str("--json-int"));
        args.push(String::from_str(property));
        args.push(self.qualify(name));
        proof {
            assert(args_v(ZfsCommand { args }) =~= seq![
                "get"@,
                "-j"@,
                "--json-int"@,
                property@,
                qualified(self.name@, name@),
            ]);
        }
        ZfsCommand { args }
    }

    /// The commands that create a dataset (with its quota, if any) and
    /// then re-mount the pool tree so the new dataset is mounted.
    pub fn create_dataset(&self, info: &Dataset) -> (r: Vec<ZfsCommand>)
        ensures
            r@.len() == 2,
            args_v(r@[0]) == (match info.quota {
                Some(q) => seq![
                    "create"@,
                    qualified(self.name@, info.name@),
                    "-o"@,
                    "quota="@ + dec_digits(q as nat),
                ],
                None => seq!["create"@, qualified(self.name@, info.name@)],
            }),
            args_v(r@[1]) == seq!["mount"@, "-R"@, self.name@],
    {
        let mut args: Vec<String> = Vec::new();
        args.push(String::from_str("create"));
        args.push(self.qualify(info.name.as_str()));
        match &info.quota {
            Some(q) => {
                args.push(String::from_str("-o"));
                let mut opt = String::from_str("quota=");
                opt.append(u64_to_string(*q).as_str());
                args.push(opt);
                proof {
                    assert(args_v(ZfsCommand { args }) =~= seq![
                        "create"@,
                        qualified(self.name@, info.name@),
                        "-o"@,
                        "quota="@ + dec_digits(info.quota.unwrap() as nat),
                    ]);
                }
            },
            None => {
                proof {
                    assert(args_v(ZfsCommand { args }) =~= seq![
                        "create"@,
                        qualified(self.name@, info.name@),
                    ]);
                }
            },
        }
        let create = ZfsCommand { args };
        let mount = self.mount();
        let mut r: Vec<ZfsCommand> = Vec::new();
        r.push(create);
        r.push(mount);
        r
    }

    /// The command that creates a volume of the given size.
    pub fn create_volume(&self, info: &Volume) -> (r: Vec<ZfsCommand>)
        ensures
            r@.len() == 1,
            args_v(r@[0]) == seq![
                "create"@,
                "-V"@,
                dec_digits(info.size as nat),
                qualified(self.name@, info.name@),
            ],
    {
        let mut args: Vec<String> = Vec::new();
        args.push(String::from_str("create"));
        args.push(String::from_str("-V"));
        args.push(u64_to_string(info.size));
        args.push(self.qualify(info.name.as_str()));
        proof {
            assert(args_v(ZfsCommand { args }) =~= seq![
                "create"@,
                "-V"@,
                dec_digits(info.size as nat),
                qualified(self.name@, info.name@),
            ]);
        }
        let mut r: Vec<ZfsCommand> = Vec::new();
        r.push(ZfsCommand { args });
        r
    }

    /// The command that destroys an entry.
    pub fn destroy(&self, name: &str) -> (r: Vec<ZfsCommand>)
        ensures
            r@.len() == 1,
            args_v(r@[0]) == seq!["destroy"@, "-f"@, qualified(self.name@, name@)],
    {
        let mut args: Vec<String> = Vec::new();
        args.push(String::from_str("destroy"));
        args.push(String::from_str("-f"));
        args.push(self.qualify(name));
        proof {
            assert(args_v(ZfsCommand { args }) =~= seq![
                "destroy"@,
                "-f"@,
                qualified(self.name@, name@),
            ]);
        }
        let mut r: Vec<ZfsCommand> = Vec::new();
        r.push(ZfsCommand { args });
        r
    }

    /// The command that re-mounts the pool tree.
    fn mount(&self) -> (r: ZfsCommand)
        ensures
            args_v(r) == seq!["mount"@, "-R"@, self.name@],
    {
        let mut args: Vec<String> = Vec::new();
        args.push(String::from_str("mount"));
        args.push(String::from_str("-R"));
        args.push(self.name.clone());
        proof {
            assert(args_v(ZfsCommand { args }) =~= seq!["mount"@, "-R"@, self.name@]);
        }
        ZfsCommand { args }
    }

    /// The command that force-unmounts an entry.
    fn unmount(&self, name: &str) -> (r: ZfsCommand)
        ensures
            args_v(r) == seq!["unmount"@, "-f"@, qualified(self.name@, name@)],
    {
        let mut args: Vec<String> = Vec::new();
        args.push(String::from_str("unmount"));
        args.push(String::from_str("-f"));
        args.push(self.qualify(name));
        proof {
            assert(args_v(ZfsCommand { args }) =~= seq![
                "unmount"@,
                "-f"@,
                qualified(self.name@, name@),
            ]);
        }
        ZfsCommand { args }
    }

    /// The command that renames an entry, creating parents.
    fn rename(&self, orig: &str, new: &str) -> (r: ZfsCommand)
        ensures
            args_v(r) == seq![
                "rename"@,
                "-p"@,
                qualified(self.name@, orig@),
                qualified(self.name@, new@),
            ],
    {
        let mut args: Vec<String> = Vec::new();
        args.push(String::from_str("rename"));
        args.push(String::from_str("-p"));
        args.push(self.qualify(orig));
        args.push(self.qualify(new));
        proof {
            assert(args_v(ZfsCommand { args }) =~= seq![
                "rename"@,
                "-p"@,
                qualified(self.name@, orig@),
                qualified(self.name@, new@),
            ]);
        }
        ZfsCommand { args }
    }

    /// The commands that reshape a dataset: set the quota when one is
    /// given; when the name changes, unmount, rename, and re-mount.
    pub fn modify_dataset(&self, info: &ModifyDataset) -> (r: Vec<ZfsCommand>)
        ensures
            ({
                let renames = info.modifications.name@.len() > 0 && info.modifications.name@
                    != info.name@;
                let sets = info.modifications.quota is Some;
                &&& r@.len() == (if sets {
                    1int
                } else {
                    0int
                }) + (if renames {
                    3int
                } else {
                    0int
                })
                &&& (sets ==> args_v(r@[0]) == seq![
                    "set"@,
                    "quota="@ + dec_digits(info.modifications.quota.unwrap() as nat),
                    qualified(self.name@, info.name@),
                ])
                &&& (renames ==> {
                    let base: int = if sets {
                        1
                    } else {
                        0
                    };
                    &&& args_v(r@[base]) == seq![
                        "unmount"@,
                        "-f"@,
                        qualified(self.name@, info.name@),
                    ]
                    &&& args_v(r@[base + 1]) == seq![
                        "rename"@,
                        "-p"@,
                        qualified(self.name@, info.name@),
                        qualified(self.name@, info.modifications.name@),
                    ]
                    &&& args_v(r@[base + 2]) == seq!["mount"@, "-R"@, self.name@]
                })
            }),
    {
        let mut r: Vec<ZfsCommand> = Vec::new();
        match &info.modifications.quota {
            Some(q) => {
                let mut args: Vec<String> = Vec::new();
                args.push(String::from_str("set"));
                let mut opt = String::from_str("quota=");
                opt.append(u64_to_string(*q).as_str());
                args.push(opt);
                args.push(self.qualify(info.name.as_str()));
                proof {
                    assert(args_v(ZfsCommand { args }) =~= seq![
                        "set"@,
                        "quota="@ + dec_digits(info.modifications.quota.unwrap() as nat),
                        qualified(self.name@, info.name@),
                    ]);
                }
                r.push(ZfsCommand { args });
            },
            None => {},
        }
        if !info.modifications.name.as_str().is_empty() && !str_eq(
            info.name.as_str(),
            info.modifications.name.as_str(),
        ) {
            r.push(self.unmount(info.name.as_str()));
            r.push(self.rename(info.name.as_str(), info.modifications.name.as_str()));
            r.push(self.mount());
        }
        r
    }

    /// The commands that reshape a volume: set the size when one is
    /// given; when the name changes, rename.
    pub fn modify_volume(&self, info: &ModifyVolume) -> (r: Vec<ZfsCommand>)
        ensures
            ({
                let renames = info.modifications.name@.len() > 0 && info.modifications.name@
                    != info.name@;
                let sets = info.modifications.size != 0;
                &&& r@.len() == (if sets {
                    1int
                } else {
                    0int
                }) + (if renames {
                    1int
                } else {
                    0int
                })
                &&& (sets ==> args_v(r@[0]) == seq![
                    "set"@,
                    "volsize="@ + dec_digits(info.modifications.size as nat),
                    qualified(self.name@, info.name@),
                ])
                &&& (renames ==> {
                    let base: int = if sets {
                        1
                    } else {
                        0
                    };
                    args_v(r@[base]) == seq![
                        "rename"@,
                        "-p"@,
                        qualified(self.name@, info.name@),
                        qualified(self.name@, info.modifications.name@),
                    ]
                })
            }),
    {
        let mut r: Vec<ZfsCommand> = Vec::new();
        if info.modifications.size != 0 {
            let mut args: Vec<String> = Vec::new();
            args.push(String::from_str("set"));
            let mut opt = String::from_str("volsize=");
            opt.append(u64_to_string(info.modifications.size).as_str());
            args.push(opt);
            args.push(self.qualify(info.name.as_str()));
            proof {
                assert(args_v(ZfsCommand { args }) =~= seq![
                    "set"@,
                    "volsize="@ + dec_digits(info.modifications.size as nat),
                    qualified(self.name@, info.name@),
                ]);
            }
            r.push(ZfsCommand { args });
        }
        if !info.modifications.name.as_str().is_empty() && !str_eq(
            info.name.as_str(),
            info.modifications.name.as_str(),
        ) {
            r.push(self.rename(info.name.as_str(), info.modifications.name.as_str()));
        }
        r
    }

    /// Whether a listing entry belongs inside this pool and passes the
    /// filter: the entry must sit under `pool/` (matching `pool/<filter>`
    /// when a filter is given), and the pool's root entry is excluded.
    pub fn entry_selected(&self, item: &ZFSListItem, filter: &Option<String>) -> (r: bool)
        ensures
            r == entry_selected_spec(self.name@, *item, match *filter {
                Some(f) => Some(f@),
                None => None,
            }),
    {
        match filter {
            Some(f) => {
                let mut prefix = self.qualify(f.as_str());
                if !str_starts_with(item.name.as_str(), prefix.as_str()) {
                    return false;
                }
            },
            None => {},
        }
        if !str_starts_with(item.name.as_str(), self.name.as_str()) {
            return false;
        }
        if str_eq(item.name.as_str(), self.name.as_str()) {
            return false;
        }
        true
    }

    /// The entry's name without the `pool/` prefix; names outside the
    /// pool are kept whole.
    pub fn short_name(&self, item: &ZFSListItem) -> (r: String)
        ensures
            r@ == short_name_spec(self.name@, item.name@),
    {
        let prefix = self.qualify("");
        if str_starts_with(item.name.as_str(), prefix.as_str()) {
            let pn = prefix.as_str().unicode_len();
            let n = item.name.as_str().unicode_len();
            let rest = item.name.as_str().substring_char(pn, n);
            let out = String::from_str(rest);
            proof {
                reveal_strlit("");
                assert(qualified(self.name@, ""@) =~= self.name@ + "/"@);
                assert(out@ =~= short_name_spec(self.name@, item.name@));
            }
            out
        } else {
            let out = item.name.clone();
            proof {
                reveal_strlit("");
                assert(qualified(self.name@, ""@) =~= self.name@ + "/"@);
            }
            out
        }
    }

    /// The property whose value is the entry's reported size: `volsize`
    /// for volumes, `quota` (falling back to `available`) for datasets.
    pub fn size_property(&self, item: &ZFSListItem) -> (r: &'static str)
        ensures
            item.typ@ == "VOLUME"@ ==> r@ == "volsize"@,
            item.typ@ != "VOLUME"@ ==> r@ == "quota"@,
    {
        if str_eq(item.typ.as_str(), "VOLUME") {
            "volsize"
        } else {
            "quota"
        }
    }

    /// Digests one selected listing entry into the stat reported upward,
    /// given the size fetched for it.
    pub fn stat_of(&self, item: &ZFSListItem, size: u64) -> (r: ZFSStat)
        ensures
            r.kind == (if item.typ@ == "VOLUME"@ {
                ZFSKind::Volume
            } else {
                ZFSKind::Dataset
            }),
            r.full_name@ == item.name@,
            r.name@ == short_name_spec(self.name@, item.name@),
            r.size == size,
            r.used == item.properties.used.value,
            r.avail == item.properties.available.value,
            r.refer == item.properties.referenced.value,
            (item.properties.mountpoint.value@ == "-"@ ==> r.mountpoint is None),
            (item.properties.mountpoint.value@ != "-"@ ==> (r.mountpoint matches Some(m) && m@
                == item.properties.mountpoint.value@)),
    {
        let kind = if str_eq(item.typ.as_str(), "VOLUME") {
            ZFSKind::Volume
        } else {
            ZFSKind::Dataset
        };
        let mountpoint = if str_eq(item.properties.mountpoint.value.as_str(), "-") {
            None
        } else {
            Some(item.properties.mountpoint.value.clone())
        };
        ZFSStat {
            kind,
            name: self.short_name(item),
            full_name: item.name.clone(),
            size,
            used: item.properties.used.value,
            avail: item.properties.available.value,
            refer: item.properties.referenced.value,
            mountpoint,
        }
    }
}

/// Whether a listing entry is inside the pool, passes the filter, and is
/// not the pool's root entry.
pub open spec fn entry_selected_spec(
    pool: Seq<char>,
    item: ZFSListItem,
    filter: Option<Seq<char>>,
) -> bool {
    &&& (match filter {
        Some(f) => item.name@.len() >= qualified(pool, f).len() && item.name@.take(
            qualified(pool, f).len() as int,
        ) == qualified(pool, f),
        None => true,
    })
    &&& item.name@.len() >= pool.len() && item.name@.take(pool.len() as int) == pool
    &&& item.name@ != pool
}

/// The entry's name without the `pool/` prefix; names outside the pool
/// are kept whole.
pub open spec fn short_name_spec(pool: Seq<char>, name: Seq<char>) -> Seq<char> {
    let prefix = pool + "/"@;
    if name.len() >= prefix.len() && name.take(prefix.len() as int) == prefix {
        name.skip(prefix.len() as int)
    } else {
        name
    }
}

/// One entry as reported upward: its kind, names, sizes, and mountpoint.
#[derive(Debug, Clone, PartialEq, Eq)]
pub struct ZFSStat {
    pub kind: ZFSKind,
    pub name: String,
    pub full_name: String,
    pub size: u64,
    pub used: u64,
    pub avail: u64,
    pub refer: u64,
    pub mountpoint: Option<String>,
}

/// Whether a reported stat is exactly the digest of a listing entry with
/// the given fetched size.
pub open spec fn stat_matches(st: ZFSStat, item: ZFSListItem, size: u64, pool: Seq<char>) -> bool {
    &&& st.kind == (if item.typ@ == "VOLUME"@ {
        ZFSKind::Volume
    } else {
        ZFSKind::Dataset
    })
    &&& st.full_name@ == item.name@
    &&& st.name@ == short_name_spec(pool, item.name@)
    &&& st.size == size
    &&& st.used == item.properties.used.value
    &&& st.avail == item.properties.available.value
    &&& st.refer == item.properties.referenced.value
    &&& (item.properties.mountpoint.value@ == "-"@ ==> st.mountpoint is None)
    &&& (item.properties.mountpoint.value@ != "-"@ ==> (st.mountpoint matches Some(m) && m@
        == item.properties.mountpoint.value@))
}

/// The filter as a character sequence.
pub open spec fn filter_v(filter: Option<String>) -> Option<Seq<char>> {
    match filter {
        Some(f) => Some(f@),
        None => None,
    }
}

/// The stat reports some selected entry of the listing, with its size.
pub open spec fn stat_from_listing(
    st: ZFSStat,
    es: Seq<ZFSListItem>,
    sizes: Seq<u64>,
    pool: Seq<char>,
    filter: Option<Seq<char>>,
) -> bool {
    exists|j: int|
        0 <= j < es.len() && entry_selected_spec(pool, #[trigger] es[j], filter) && stat_matches(
            st,
            es[j],
            sizes[j],
            pool,
        )
}

/// Some stat of the list reports this entry with this size.
pub open spec fn stat_covers(r: Seq<ZFSStat>, item: ZFSListItem, size: u64, pool: Seq<char>) -> bool {
    exists|m: int| 0 <= m < r.len() && stat_matches(#[trigger] r[m], item, size, pool)
}

/// How many entries of the listing are selected: inside the pool, past
/// the filter, not the root entry.
pub open spec fn selected_count(
    es: Seq<ZFSListItem>,
    pool: Seq<char>,
    filter: Option<Seq<char>>,
) -> nat
    decreases es.len(),
{
    if es.len() == 0 {
        0
    } else {
        selected_count(es.drop_last(), pool, filter) + (if entry_selected_spec(
            pool,
            es.last(),
            filter,
        ) {
            1nat
        } else {
            0nat
        })
    }
}

impl Pool {
    /// Digests a listing into the stats reported upward: one stat per
    /// entry inside the pool that passes the filter, each sized by the
    /// value fetched for it (`sizes` runs parallel to `entries`). The
    /// listing's own order carries no meaning.
    pub fn list(&self, entries: &Vec<ZFSListItem>, sizes: &Vec<u64>, filter: &Option<String>) -> (r:
        Vec<ZFSStat>)
        requires
            entries@.len() == sizes@.len(),
        ensures
            r@.len() == selected_count(entries@, self.name@, filter_v(*filter)),
            forall|m: int|
                0 <= m < r@.len() ==> stat_from_listing(
                    #[trigger] r@[m],
                    entries@,
                    sizes@,
                    self.name@,
                    filter_v(*filter),
                ),
            forall|j: int|
                0 <= j < entries@.len() && entry_selected_spec(
                    self.name@,
                    #[trigger] entries@[j],
                    filter_v(*filter),
                ) ==> stat_covers(r@, entries@[j], sizes@[j], self.name@),
    {
        let ghost es = entries@;
        let mut r: Vec<ZFSStat> = Vec::new();
        let mut j: usize = 0;
        while j < entries.len()
            invariant
                j <= es.len(),
                es == entries@,
                es.len() == sizes@.len(),
                r@.len() == selected_count(es.take(j as int), self.name@, filter_v(*filter)),
                forall|m: int|
                    0 <= m < r@.len() ==> stat_from_listing(
                        #[trigger] r@[m],
                        es,
                        sizes@,
                        self.name@,
                        filter_v(*filter),
                    ),
                forall|j2: int|
                    0 <= j2 < j && entry_selected_spec(
                        self.name@,
                        #[trigger] es[j2],
                        filter_v(*filter),
                    ) ==> stat_covers(r@, es[j2], sizes@[j2], self.name@),
            decreases es.len() - j,
        {
            if self.entry_selected(&entries[j], filter) {
                let ghost r0 = r@;
                let st = self.stat_of(&entries[j], sizes[j]);
                r.push(st);
                proof {
                    assert(entry_selected_spec(self.name@, es[j as int], filter_v(*filter)));
                    assert(stat_matches(st, es[j as int], sizes@[j as int], self.name@));
                    assert(stat_from_listing(st, es, sizes@, self.name@, filter_v(*filter)));
                    assert forall|m: int| 0 <= m < r@.len() implies stat_from_listing(
                        #[trigger] r@[m],
                        es,
                        sizes@,
                        self.name@,
                        filter_v(*filter),
                    ) by {
                        if m < r0.len() {
                            assert(r@[m] == r0[m]);
                            assert(stat_from_listing(r0[m], es, sizes@, self.name@,
                                filter_v(*filter)));
                        } else {
                            assert(r@[m] == st);
                        }
                    }
                    assert forall|j2: int|
                        0 <= j2 < j + 1 && entry_selected_spec(
                            self.name@,
                            #[trigger] es[j2],
                            filter_v(*filter),
                        ) implies stat_covers(r@, es[j2], sizes@[j2], self.name@) by {
                        if j2 == j as int {
                            assert(r@[r@.len() - 1] == st);
                            assert(stat_covers(r@, es[j2], sizes@[j2], self.name@));
                        } else {
                            let m = choose|m: int|
                                0 <= m < r0.len() && stat_matches(
                                    #[trigger] r0[m],
                                    es[j2],
                                    sizes@[j2],
                                    self.name@,
                                );
                            assert(r@[m] == r0[m]);
                            assert(stat_covers(r@, es[j2], sizes@[j2], self.name@));
                        }
                    }
                }
            }
            proof {
                assert(es.take(j + 1).drop_last() =~= es.take(j as int));
                assert(es.take(j + 1).last() == es[j as int]);
            }
            j = j + 1;
        }
        proof {
            assert(es.take(j as int) =~= es);
        }
        r
    }

    /// The command that sets properties on an entry: `zfs set k=v… pool/name`,
    /// and no command at all when no property is given.
    pub fn set_command(&self, name: &str, properties: &Vec<(String, String)>) -> (r: Vec<
        ZfsCommand,
    >)
        ensures
            properties@.len() == 0 ==> r@.len() == 0,
            properties@.len() > 0 ==> {
                &&& r@.len() == 1
                &&& args_v(r@[0]).len() == properties@.len() + 2
                &&& args_v(r@[0])[0] == "set"@
                &&& forall|i: int|
                    0 <= i < properties@.len() ==> args_v(r@[0])[i + 1] == (
                    #[trigger] properties@[i]).0@ + "="@ + properties@[i].1@
                &&& args_v(r@[0])[properties@.len() as int + 1] == qualified(self.name@, name@)
            },
    {
        if properties.len() == 0 {
            return Vec::new();
        }
        let mut args: Vec<String> = Vec::new();
        args.push(String::from_str("set"));
        let mut i: usize = 0;
        while i < properties.len()
            invariant
                i <= properties@.len(),
                args@.len() == i + 1,
                args@[0]@ == "set"@,
                forall|k: int|
                    0 <= k < i ==> (#[trigger] args@[k + 1])@ == properties@[k].0@ + "="@
                        + properties@[k].1@,
            decreases properties@.len() - i,
        {
            let mut opt = String::from_str(properties[i].0.as_str());
            opt.append("=");
            opt.append(properties[i].1.as_str());
            args.push(opt);
            i = i + 1;
        }
        args.push(self.qualify(name));
        let cmd = ZfsCommand { args };
        proof {
            assert(args_v(cmd).len() == properties@.len() + 2);
            assert forall|k: int| 0 <= k < properties@.len() implies args_v(cmd)[k + 1] == (
            #[trigger] properties@[k]).0@ + "="@ + properties@[k].1@ by {
                assert((cmd.args@[k + 1])@ == properties@[k].0@ + "="@ + properties@[k].1@);
            }
        }
        let mut r: Vec<ZfsCommand> = Vec::new();
        r.push(cmd);
        r
    }
}

} // verus!
