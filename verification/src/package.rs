//! The package data model. A source package is a declarative description
//! whose scalar fields are templated inputs; compiling it resolves every
//! field through the two template passes and coerces the result to its
//! declared type, materializing absent sections as their empty forms.

use vstd::prelude::*;
use vstd::string::*;

use crate::errors::Error;
use crate::globals::Global;
use crate::input::TemplatedInput;
use crate::input::two_pass_spec;
use crate::prompt::PromptCollection;
use crate::prompt::PromptResponses;
use crate::prompt::prompts_view;
use crate::prompt::response_pairs;
use crate::template::pairs_view;
use crate::text::parse_bool_spec;
use crate::text::parse_unsigned_spec;

verus! {

/// The unique key of a package: a name and a version.
#[derive(Debug, Clone, PartialEq, Eq, PartialOrd, Ord, Hash)]
pub struct PackageTitle {
    pub name: String,
    pub version: String,
}

impl PackageTitle {
    /// The string form `name-version`.
    pub fn to_string(&self) -> (r: String)
        ensures
            r@ == self.name@ + "-"@ + self.version@,
    {
        let mut out = self.name.clone();
        out.append("-");
        out.append(self.version.as_str());
        proof {
            assert(out@ =~= self.name@ + "-"@ + self.version@);
        }
        out
    }

    /// The per-package volume directory under a volume root.
    pub fn format_volume(&self, root: &str) -> (r: String)
        ensures
            r@ == root@ + "/"@ + self.name@,
    {
        let mut out = String::from_str(root);
        out.append("/");
        out.append(self.name.as_str());
        proof {
            assert(out@ =~= root@ + "/"@ + self.name@);
        }
        out
    }

    /// A copy of this title.
    pub fn duplicate(&self) -> (r: Self)
        ensures
            r.name@ == self.name@,
            r.version@ == self.version@,
    {
        PackageTitle { name: self.name.clone(), version: self.version.clone() }
    }
}

impl Default for PackageTitle {
    /// The default title has empty name and version.
    fn default() -> (r: Self)
        ensures
            r.name@ == Seq::<char>::empty(),
            r.version@ == Seq::<char>::empty(),
    {
        PackageTitle { name: String::new(), version: String::new() }
    }
}

/// The name/version pairs of a title list.
pub open spec fn titles_view(ts: Seq<PackageTitle>) -> Seq<(Seq<char>, Seq<char>)> {
    ts.map_values(|t: PackageTitle| (t.name@, t.version@))
}

/// Copies a list of titles.
pub fn duplicate_titles(ts: &Vec<PackageTitle>) -> (r: Vec<PackageTitle>)
    ensures
        titles_view(r@) == titles_view(ts@),
{
    let mut v: Vec<PackageTitle> = Vec::new();
    let mut i: usize = 0;
    while i < ts.len()
        invariant
            i <= ts@.len(),
            v@.len() == i,
            forall|j: int|
                0 <= j < i ==> (#[trigger] v@[j]).name@ == ts@[j].name@ && v@[j].version@
                    == ts@[j].version@,
        decreases ts@.len() - i,
    {
        v.push(ts[i].duplicate());
        i = i + 1;
    }
    proof {
        assert forall|j: int| 0 <= j < titles_view(v@).len() implies titles_view(v@)[j]
            == titles_view(ts@)[j] by {
            assert(v@[j].name@ == ts@[j].name@);
            assert(v@[j].version@ == ts@[j].version@);
        }
        assert(titles_view(v@) =~= titles_view(ts@));
    }
    v
}

/// An uninstall request: which title to remove, and whether to purge its
/// storage.
#[derive(Debug, Clone, PartialEq, Eq)]
pub struct UninstallData {
    pub name: String,
    pub version: String,
    pub purge: bool,
}

/// A title together with whether its installed marker exists.
#[derive(Debug, Clone, PartialEq, Eq)]
pub struct PackageStatus {
    pub title: PackageTitle,
    pub installed: bool,
}

/// What the first template pass and then the second yield for a templated
/// input, as text; `None` when a key has no match.
pub open spec fn tp_str(
    t: TemplatedInput,
    g: Seq<(Seq<char>, Seq<char>)>,
    rp: Seq<(Seq<char>, Seq<char>)>,
) -> Option<Seq<char>> {
    match two_pass_spec(t.input@, g, rp) {
        Ok(o) => Some(o),
        Err(_) => None,
    }
}

/// The expanded input coerced to an unsigned 64-bit value.
pub open spec fn tp_u64(
    t: TemplatedInput,
    g: Seq<(Seq<char>, Seq<char>)>,
    rp: Seq<(Seq<char>, Seq<char>)>,
) -> Option<u64> {
    match tp_str(t, g, rp) {
        Some(o) => match parse_unsigned_spec(o, u64::MAX as nat) {
            Some(n) => Some(n as u64),
            None => None,
        },
        None => None,
    }
}

/// The expanded input coerced to a port number.
pub open spec fn tp_u16(
    t: TemplatedInput,
    g: Seq<(Seq<char>, Seq<char>)>,
    rp: Seq<(Seq<char>, Seq<char>)>,
) -> Option<u16> {
    match tp_str(t, g, rp) {
        Some(o) => match parse_unsigned_spec(o, u16::MAX as nat) {
            Some(n) => Some(n as u16),
            None => None,
        },
        None => None,
    }
}

/// The expanded input coerced to a boolean.
pub open spec fn tp_bool(
    t: TemplatedInput,
    g: Seq<(Seq<char>, Seq<char>)>,
    rp: Seq<(Seq<char>, Seq<char>)>,
) -> Option<bool> {
    match tp_str(t, g, rp) {
        Some(o) => parse_bool_spec(o),
        None => None,
    }
}

/// Where a package's payload comes from: a VM image URL or a container
/// image reference.
#[derive(Debug, Clone, PartialEq, Eq)]
pub enum Source {
    URL(TemplatedInput),
    Container(TemplatedInput),
}

impl Default for Source {
    /// The default source is the empty `scratch` container image.
    fn default() -> (r: Self)
        ensures
            r matches Source::Container(t) && t.input@ == "scratch"@,
    {
        Source::Container(TemplatedInput::new("scratch"))
    }
}

/// A source after compilation.
#[derive(Debug, Clone, PartialEq, Eq)]
pub enum CompiledSource {
    URL(String),
    Container(String),
}

impl Default for CompiledSource {
    /// The default compiled source is the empty `scratch` container image.
    fn default() -> (r: Self)
        ensures
            r matches CompiledSource::Container(s) && s@ == "scratch"@,
    {
        CompiledSource::Container(String::from_str("scratch"))
    }
}

/// Whether a source's templated field expands and coerces.
pub open spec fn source_ok(
    s: Source,
    g: Seq<(Seq<char>, Seq<char>)>,
    rp: Seq<(Seq<char>, Seq<char>)>,
) -> bool {
    match s {
        Source::URL(t) => tp_str(t, g, rp) is Some,
        Source::Container(t) => tp_str(t, g, rp) is Some,
    }
}

/// The compiled form of a source, when every field expands.
pub open spec fn source_compiled(
    s: Source,
    c: CompiledSource,
    g: Seq<(Seq<char>, Seq<char>)>,
    rp: Seq<(Seq<char>, Seq<char>)>,
) -> bool {
    match s {
        Source::URL(t) => c matches CompiledSource::URL(o) && tp_str(t, g, rp) == Some(o@),
        Source::Container(t) => c matches CompiledSource::Container(o) && tp_str(t, g, rp) == Some(
            o@,
        ),
    }
}

impl Source {
    /// Expands the payload reference through both template passes.
    pub fn compile(
        &self,
        globals: &Global,
        prompts: &PromptCollection,
        responses: &PromptResponses,
    ) -> (r: Result<CompiledSource, Error>)
        ensures
            ({
                let g = pairs_view(globals.variables@);
                let rp = response_pairs(responses.0@);
                match r {
                    Ok(c) => source_ok(*self, g, rp) && source_compiled(*self, c, g, rp),
                    Err(_) => !source_ok(*self, g, rp),
                }
            }),
    {
        match self {
            Source::URL(t) => {
                let o = t.output_string(globals, prompts, responses)?;
                Ok(CompiledSource::URL(o))
            },
            Source::Container(t) => {
                let o = t.output_string(globals, prompts, responses)?;
                Ok(CompiledSource::Container(o))
            },
        }
    }
}

/// Declared networking: TCP port forwards and exposures, an optional
/// internal network, an optional hostname.
#[derive(Debug, Clone, PartialEq, Eq)]
pub struct Networking {
    pub forward_ports: Option<Vec<(TemplatedInput, TemplatedInput)>>,
    pub expose_ports: Option<Vec<(TemplatedInput, TemplatedInput)>>,
    pub internal_network: Option<TemplatedInput>,
    pub hostname: Option<TemplatedInput>,
}

impl Default for Networking {
    /// The default declares no networking at all.
    fn default() -> (r: Self)
        ensures
            r.forward_ports is None,
            r.expose_ports is None,
            r.internal_network is None,
            r.hostname is None,
    {
        Networking { forward_ports: None, expose_ports: None, internal_network: None, hostname: None }
    }
}

/// Networking after compilation.
#[derive(Debug, Clone, PartialEq, Eq)]
pub struct CompiledNetworking {
    pub forward_ports: Vec<(u16, u16)>,
    pub expose_ports: Vec<(u16, u16)>,
    pub internal_network: Option<String>,
    pub hostname: Option<String>,
}

impl Default for CompiledNetworking {
    /// The default compiled networking is empty.
    fn default() -> (r: Self)
        ensures
            r.forward_ports@ == Seq::<(u16, u16)>::empty(),
            r.expose_ports@ == Seq::<(u16, u16)>::empty(),
            r.internal_network is None,
            r.hostname is None,
    {
        CompiledNetworking {
            forward_ports: Vec::new(),
            expose_ports: Vec::new(),
            internal_network: None,
            hostname: None,
        }
    }
}

/// Whether every pair of a port list expands and coerces.
pub open spec fn port_vec_ok(
    vs: Seq<(TemplatedInput, TemplatedInput)>,
    g: Seq<(Seq<char>, Seq<char>)>,
    rp: Seq<(Seq<char>, Seq<char>)>,
) -> bool {
    forall|i: int|
        0 <= i < vs.len() ==> tp_u16((#[trigger] vs[i]).0, g, rp) is Some && tp_u16(
            vs[i].1,
            g,
            rp,
        ) is Some
}

/// The compiled form of a port list, pair by pair in order.
pub open spec fn port_vec_compiled(
    vs: Seq<(TemplatedInput, TemplatedInput)>,
    c: Seq<(u16, u16)>,
    g: Seq<(Seq<char>, Seq<char>)>,
    rp: Seq<(Seq<char>, Seq<char>)>,
) -> bool {
    c.len() == vs.len() && forall|i: int|
        0 <= i < vs.len() ==> tp_u16((#[trigger] vs[i]).0, g, rp) == Some(c[i].0) && tp_u16(
            vs[i].1,
            g,
            rp,
        ) == Some(c[i].1)
}

/// Whether every port pair of an optional list expands and coerces.
pub open spec fn ports_ok(
    ps: Option<Vec<(TemplatedInput, TemplatedInput)>>,
    g: Seq<(Seq<char>, Seq<char>)>,
    rp: Seq<(Seq<char>, Seq<char>)>,
) -> bool {
    match ps {
        Some(v) => port_vec_ok(v@, g, rp),
        None => true,
    }
}

/// The compiled form of an optional port pair list: absent lists become
/// empty, each pair is its coerced values in order.
pub open spec fn ports_compiled(
    ps: Option<Vec<(TemplatedInput, TemplatedInput)>>,
    c: Seq<(u16, u16)>,
    g: Seq<(Seq<char>, Seq<char>)>,
    rp: Seq<(Seq<char>, Seq<char>)>,
) -> bool {
    match ps {
        Some(v) => port_vec_compiled(v@, c, g, rp),
        None => c.len() == 0,
    }
}

/// Whether an optional string field expands.
pub open spec fn opt_str_ok(
    t: Option<TemplatedInput>,
    g: Seq<(Seq<char>, Seq<char>)>,
    rp: Seq<(Seq<char>, Seq<char>)>,
) -> bool {
    match t {
        Some(x) => tp_str(x, g, rp) is Some,
        None => true,
    }
}

/// The compiled form of an optional string field.
pub open spec fn opt_str_compiled(
    t: Option<TemplatedInput>,
    c: Option<String>,
    g: Seq<(Seq<char>, Seq<char>)>,
    rp: Seq<(Seq<char>, Seq<char>)>,
) -> bool {
    match t {
        Some(x) => c matches Some(o) && tp_str(x, g, rp) == Some(o@),
        None => c is None,
    }
}

/// Whether every networking field expands and coerces.
pub open spec fn networking_ok(
    n: Networking,
    g: Seq<(Seq<char>, Seq<char>)>,
    rp: Seq<(Seq<char>, Seq<char>)>,
) -> bool {
    &&& ports_ok(n.forward_ports, g, rp)
    &&& ports_ok(n.expose_ports, g, rp)
    &&& opt_str_ok(n.internal_network, g, rp)
    &&& opt_str_ok(n.hostname, g, rp)
}

/// The compiled form of a networking section.
pub open spec fn networking_compiled(
    n: Networking,
    c: CompiledNetworking,
    g: Seq<(Seq<char>, Seq<char>)>,
    rp: Seq<(Seq<char>, Seq<char>)>,
) -> bool {
    &&& ports_compiled(n.forward_ports, c.forward_ports@, g, rp)
    &&& ports_compiled(n.expose_ports, c.expose_ports@, g, rp)
    &&& opt_str_compiled(n.internal_network, c.internal_network, g, rp)
    &&& opt_str_compiled(n.hostname, c.hostname, g, rp)
}

/// Compiles one port list.
fn compile_port_vec(
    v: &Vec<(TemplatedInput, TemplatedInput)>,
    globals: &Global,
    prompts: &PromptCollection,
    responses: &PromptResponses,
) -> (r: Result<Vec<(u16, u16)>, Error>)
    ensures
        ({
            let g = pairs_view(globals.variables@);
            let rp = response_pairs(responses.0@);
            match r {
                Ok(c) => port_vec_ok(v@, g, rp) && port_vec_compiled(v@, c@, g, rp),
                Err(_) => !port_vec_ok(v@, g, rp),
            }
        }),
{
    let ghost g = pairs_view(globals.variables@);
    let ghost rp = response_pairs(responses.0@);
    let mut out: Vec<(u16, u16)> = Vec::new();
    let mut i: usize = 0;
    while i < v.len()
        invariant
            i <= v@.len(),
            out@.len() == i,
            g == pairs_view(globals.variables@),
            rp == response_pairs(responses.0@),
            forall|j: int|
                0 <= j < i ==> tp_u16((#[trigger] v@[j]).0, g, rp) == Some(out@[j].0) && tp_u16(
                    v@[j].1,
                    g,
                    rp,
                ) == Some(out@[j].1),
        decreases v@.len() - i,
    {
        let host = match v[i].0.output_u16(globals, prompts, responses) {
            Ok(h) => h,
            Err(e) => {
                proof {
                    assert(tp_u16((v@[i as int]).0, g, rp) is None);
                }
                return Err(e);
            },
        };
        let guest = match v[i].1.output_u16(globals, prompts, responses) {
            Ok(h) => h,
            Err(e) => {
                proof {
                    assert(tp_u16((v@[i as int]).1, g, rp) is None);
                }
                return Err(e);
            },
        };
        out.push((host, guest));
        i = i + 1;
    }
    Ok(out)
}

/// Compiles one optional string field.
fn compile_opt_str(
    t: &Option<TemplatedInput>,
    globals: &Global,
    prompts: &PromptCollection,
    responses: &PromptResponses,
) -> (r: Result<Option<String>, Error>)
    ensures
        ({
            let g = pairs_view(globals.variables@);
            let rp = response_pairs(responses.0@);
            match r {
                Ok(c) => opt_str_ok(*t, g, rp) && opt_str_compiled(*t, c, g, rp),
                Err(_) => !opt_str_ok(*t, g, rp),
            }
        }),
{
    match t {
        Some(x) => {
            let o = x.output_string(globals, prompts, responses)?;
            Ok(Some(o))
        },
        None => Ok(None),
    }
}

impl Networking {
    /// Expands every networking field; absent lists become empty.
    pub fn compile(
        &self,
        globals: &Global,
        prompts: &PromptCollection,
        responses: &PromptResponses,
    ) -> (r: Result<CompiledNetworking, Error>)
        ensures
            ({
                let g = pairs_view(globals.variables@);
                let rp = response_pairs(responses.0@);
                match r {
                    Ok(c) => networking_ok(*self, g, rp) && networking_compiled(*self, c, g, rp),
                    Err(_) => !networking_ok(*self, g, rp),
                }
            }),
    {
        let forward_ports = match &self.forward_ports {
            Some(v) => compile_port_vec(v, globals, prompts, responses)?,
            None => Vec::new(),
        };
        let expose_ports = match &self.expose_ports {
            Some(v) => compile_port_vec(v, globals, prompts, responses)?,
            None => Vec::new(),
        };
        let internal_network = compile_opt_str(&self.internal_network, globals, prompts, responses)?;
        let hostname = compile_opt_str(&self.hostname, globals, prompts, responses)?;
        Ok(CompiledNetworking { forward_ports, expose_ports, internal_network, hostname })
    }
}

/// One declared volume: name, size in bytes, optional mountpoint, and the
/// recreate/private flags.
#[derive(Debug, Clone, PartialEq, Eq)]
pub struct Volume {
    pub name: TemplatedInput,
    pub size: TemplatedInput,
    pub mountpoint: Option<TemplatedInput>,
    pub recreate: TemplatedInput,
    pub private: TemplatedInput,
}

impl Default for Volume {
    /// The default volume has an empty name, zero size, no mountpoint, and
    /// false flags.
    fn default() -> (r: Self)
        ensures
            r.name.input@ == Seq::<char>::empty(),
            r.size.input@ == "0"@,
            r.mountpoint is None,
            r.recreate.input@ == "false"@,
            r.private.input@ == "false"@,
    {
        Volume {
            name: TemplatedInput::default(),
            size: TemplatedInput::new("0"),
            mountpoint: None,
            recreate: TemplatedInput::new("false"),
            private: TemplatedInput::new("false"),
        }
    }
}

/// A volume after compilation.
#[derive(Debug, Clone, PartialEq, Eq)]
pub struct CompiledVolume {
    pub name: String,
    pub size: u64,
    pub mountpoint: Option<String>,
    pub recreate: bool,
    pub private: bool,
}

/// Whether every field of a volume expands and coerces.
pub open spec fn volume_ok(
    v: Volume,
    g: Seq<(Seq<char>, Seq<char>)>,
    rp: Seq<(Seq<char>, Seq<char>)>,
) -> bool {
    &&& tp_str(v.name, g, rp) is Some
    &&& tp_u64(v.size, g, rp) is Some
    &&& opt_str_ok(v.mountpoint, g, rp)
    &&& tp_bool(v.recreate, g, rp) is Some
    &&& tp_bool(v.private, g, rp) is Some
}

/// The compiled form of a volume.
pub open spec fn volume_compiled(
    v: Volume,
    c: CompiledVolume,
    g: Seq<(Seq<char>, Seq<char>)>,
    rp: Seq<(Seq<char>, Seq<char>)>,
) -> bool {
    &&& tp_str(v.name, g, rp) == Some(c.name@)
    &&& tp_u64(v.size, g, rp) == Some(c.size)
    &&& opt_str_compiled(v.mountpoint, c.mountpoint, g, rp)
    &&& tp_bool(v.recreate, g, rp) == Some(c.recreate)
    &&& tp_bool(v.private, g, rp) == Some(c.private)
}

impl Volume {
    /// Expands every field of the volume.
    pub fn compile(
        &self,
        globals: &Global,
        prompts: &PromptCollection,
        responses: &PromptResponses,
    ) -> (r: Result<CompiledVolume, Error>)
        ensures
            ({
                let g = pairs_view(globals.variables@);
                let rp = response_pairs(responses.0@);
                match r {
                    Ok(c) => volume_ok(*self, g, rp) && volume_compiled(*self, c, g, rp),
                    Err(_) => !volume_ok(*self, g, rp),
                }
            }),
    {
        let mountpoint = compile_opt_str(&self.mountpoint, globals, prompts, responses)?;
        let name = self.name.output_string(globals, prompts, responses)?;
        let size = self.size.output_u64(globals, prompts, responses)?;
        let recreate = self.recreate.output_bool(globals, prompts, responses)?;
        let private = self.private.output_bool(globals, prompts, responses)?;
        Ok(CompiledVolume { name, size, mountpoint, recreate, private })
    }
}

/// The declared storage: an ordered list of volumes.
#[derive(Debug, Clone, PartialEq, Eq)]
pub struct Storage {
    pub volumes: Vec<Volume>,
}

impl Default for Storage {
    /// The default storage declares no volumes.
    fn default() -> (r: Self)
        ensures
            r.volumes@ == Seq::<Volume>::empty(),
    {
        Storage { volumes: Vec::new() }
    }
}

/// Storage after compilation.
#[derive(Debug, Clone, PartialEq, Eq)]
pub struct CompiledStorage {
    pub volumes: Vec<CompiledVolume>,
}

impl Default for CompiledStorage {
    /// The default compiled storage is empty.
    fn default() -> (r: Self)
        ensures
            r.volumes@ == Seq::<CompiledVolume>::empty(),
    {
        CompiledStorage { volumes: Vec::new() }
    }
}

/// Whether every volume of a storage section compiles.
pub open spec fn storage_ok(
    s: Storage,
    g: Seq<(Seq<char>, Seq<char>)>,
    rp: Seq<(Seq<char>, Seq<char>)>,
) -> bool {
    forall|i: int| 0 <= i < s.volumes@.len() ==> volume_ok(#[trigger] s.volumes@[i], g, rp)
}

/// The compiled form of a storage section, volume by volume in order.
pub open spec fn storage_compiled(
    s: Storage,
    c: CompiledStorage,
    g: Seq<(Seq<char>, Seq<char>)>,
    rp: Seq<(Seq<char>, Seq<char>)>,
) -> bool {
    &&& c.volumes@.len() == s.volumes@.len()
    &&& forall|i: int|
        0 <= i < s.volumes@.len() ==> volume_compiled(
            #[trigger] s.volumes@[i],
            c.volumes@[i],
            g,
            rp,
        )
}

impl Storage {
    /// Expands every volume in order; the first failure stops compilation.
    pub fn compile(
        &self,
        globals: &Global,
        prompts: &PromptCollection,
        responses: &PromptResponses,
    ) -> (r: Result<CompiledStorage, Error>)
        ensures
            ({
                let g = pairs_view(globals.variables@);
                let rp = response_pairs(responses.0@);
                match r {
                    Ok(c) => storage_ok(*self, g, rp) && storage_compiled(*self, c, g, rp),
                    Err(_) => !storage_ok(*self, g, rp),
                }
            }),
    {
        let ghost g = pairs_view(globals.variables@);
        let ghost rp = response_pairs(responses.0@);
        let mut volumes: Vec<CompiledVolume> = Vec::new();
        let mut i: usize = 0;
        while i < self.volumes.len()
            invariant
                i <= self.volumes@.len(),
                volumes@.len() == i,
                g == pairs_view(globals.variables@),
                rp == response_pairs(responses.0@),
                forall|j: int|
                    0 <= j < i ==> volume_ok(#[trigger] self.volumes@[j], g, rp)
                        && volume_compiled(self.volumes@[j], volumes@[j], g, rp),
            decreases self.volumes@.len() - i,
        {
            let c = match self.volumes[i].compile(globals, prompts, responses) {
                Ok(c) => c,
                Err(e) => {
                    proof {
                        assert(!volume_ok(self.volumes@[i as int], g, rp));
                    }
                    return Err(e);
                },
            };
            volumes.push(c);
            i = i + 1;
        }
        Ok(CompiledStorage { volumes })
    }
}

/// Declared system privileges: host PID and network namespaces, extra
/// capabilities, privileged mode.
#[derive(Debug, Clone, PartialEq, Eq)]
pub struct System {
    pub host_pid: TemplatedInput,
    pub host_net: TemplatedInput,
    pub capabilities: Vec<TemplatedInput>,
    pub privileged: TemplatedInput,
}

impl Default for System {
    /// The default system section grants nothing.
    fn default() -> (r: Self)
        ensures
            r.host_pid.input@ == "false"@,
            r.host_net.input@ == "false"@,
            r.capabilities@ == Seq::<TemplatedInput>::empty(),
            r.privileged.input@ == "false"@,
    {
        System {
            host_pid: TemplatedInput::new("false"),
            host_net: TemplatedInput::new("false"),
            capabilities: Vec::new(),
            privileged: TemplatedInput::new("false"),
        }
    }
}

/// System privileges after compilation.
#[derive(Debug, Clone, PartialEq, Eq)]
pub struct CompiledSystem {
    pub host_pid: bool,
    pub host_net: bool,
    pub capabilities: Vec<String>,
    pub privileged: bool,
}

impl Default for CompiledSystem {
    /// The default compiled system grants nothing.
    fn default() -> (r: Self)
        ensures
            !r.host_pid,
            !r.host_net,
            r.capabilities@ == Seq::<String>::empty(),
            !r.privileged,
    {
        CompiledSystem { host_pid: false, host_net: false, capabilities: Vec::new(), privileged: false }
    }
}

/// Whether every system field expands and coerces.
pub open spec fn system_ok(
    s: System,
    g: Seq<(Seq<char>, Seq<char>)>,
    rp: Seq<(Seq<char>, Seq<char>)>,
) -> bool {
    &&& tp_bool(s.host_pid, g, rp) is Some
    &&& tp_bool(s.host_net, g, rp) is Some
    &&& forall|i: int| 0 <= i < s.capabilities@.len() ==> tp_str(#[trigger] s.capabilities@[i], g, rp) is Some
    &&& tp_bool(s.privileged, g, rp) is Some
}

/// The compiled form of a system section.
pub open spec fn system_compiled(
    s: System,
    c: CompiledSystem,
    g: Seq<(Seq<char>, Seq<char>)>,
    rp: Seq<(Seq<char>, Seq<char>)>,
) -> bool {
    &&& tp_bool(s.host_pid, g, rp) == Some(c.host_pid)
    &&& tp_bool(s.host_net, g, rp) == Some(c.host_net)
    &&& c.capabilities@.len() == s.capabilities@.len()
    &&& forall|i: int|
        0 <= i < s.capabilities@.len() ==> tp_str(#[trigger] s.capabilities@[i], g, rp) == Some(
            c.capabilities@[i]@,
        )
    &&& tp_bool(s.privileged, g, rp) == Some(c.privileged)
}

impl System {
    /// Expands every system field.
    pub fn compile(
        &self,
        globals: &Global,
        prompts: &PromptCollection,
        responses: &PromptResponses,
    ) -> (r: Result<CompiledSystem, Error>)
        ensures
            ({
                let g = pairs_view(globals.variables@);
                let rp = response_pairs(responses.0@);
                match r {
                    Ok(c) => system_ok(*self, g, rp) && system_compiled(*self, c, g, rp),
                    Err(_) => !system_ok(*self, g, rp),
                }
            }),
    {
        let ghost g = pairs_view(globals.variables@);
        let ghost rp = response_pairs(responses.0@);
        let mut capabilities: Vec<String> = Vec::new();
        let mut i: usize = 0;
        while i < self.capabilities.len()
            invariant
                i <= self.capabilities@.len(),
                capabilities@.len() == i,
                g == pairs_view(globals.variables@),
                rp == response_pairs(responses.0@),
                forall|j: int|
                    0 <= j < i ==> tp_str(#[trigger] self.capabilities@[j], g, rp) == Some(
                        capabilities@[j]@,
                    ),
            decreases self.capabilities@.len() - i,
        {
            let c = match self.capabilities[i].output_string(globals, prompts, responses) {
                Ok(c) => c,
                Err(e) => {
                    proof {
                        assert(tp_str(self.capabilities@[i as int], g, rp) is None);
                    }
                    return Err(e);
                },
            };
            capabilities.push(c);
            i = i + 1;
        }
        let host_pid = self.host_pid.output_bool(globals, prompts, responses)?;
        let host_net = self.host_net.output_bool(globals, prompts, responses)?;
        let privileged = self.privileged.output_bool(globals, prompts, responses)?;
        Ok(CompiledSystem { host_pid, host_net, capabilities, privileged })
    }
}

/// Declared resource limits: virtual CPUs and memory in MiB.
#[derive(Debug, Clone, PartialEq, Eq)]
pub struct Resources {
    pub cpus: TemplatedInput,
    pub memory: TemplatedInput,
}

impl Default for Resources {
    /// The default resources are zero.
    fn default() -> (r: Self)
        ensures
            r.cpus.input@ == "0"@,
            r.memory.input@ == "0"@,
    {
        Resources { cpus: TemplatedInput::new("0"), memory: TemplatedInput::new("0") }
    }
}

/// Resource limits after compilation.
#[derive(Debug, Clone, PartialEq, Eq)]
pub struct CompiledResources {
    pub cpus: u64,
    pub memory: u64,
}

impl Default for CompiledResources {
    /// The default compiled resources are zero.
    fn default() -> (r: Self)
        ensures
            r.cpus == 0u64,
            r.memory == 0u64,
    {
        CompiledResources { cpus: 0, memory: 0 }
    }
}

/// Whether both resource fields expand and coerce.
pub open spec fn resources_ok(
    s: Resources,
    g: Seq<(Seq<char>, Seq<char>)>,
    rp: Seq<(Seq<char>, Seq<char>)>,
) -> bool {
    tp_u64(s.cpus, g, rp) is Some && tp_u64(s.memory, g, rp) is Some
}

/// The compiled form of a resources section.
pub open spec fn resources_compiled(
    s: Resources,
    c: CompiledResources,
    g: Seq<(Seq<char>, Seq<char>)>,
    rp: Seq<(Seq<char>, Seq<char>)>,
) -> bool {
    tp_u64(s.cpus, g, rp) == Some(c.cpus) && tp_u64(s.memory, g, rp) == Some(c.memory)
}

impl Resources {
    /// Expands both resource fields.
    pub fn compile(
        &self,
        globals: &Global,
        prompts: &PromptCollection,
        responses: &PromptResponses,
    ) -> (r: Result<CompiledResources, Error>)
        ensures
            ({
                let g = pairs_view(globals.variables@);
                let rp = response_pairs(responses.0@);
                match r {
                    Ok(c) => resources_ok(*self, g, rp) && resources_compiled(*self, c, g, rp),
                    Err(_) => !resources_ok(*self, g, rp),
                }
            }),
    {
        let cpus = self.cpus.output_u64(globals, prompts, responses)?;
        let memory = self.memory.output_u64(globals, prompts, responses)?;
        Ok(CompiledResources { cpus, memory })
    }
}

/// A declarative, on-disk package description.
#[derive(Debug, Clone, PartialEq, Eq)]
pub struct SourcePackage {
    pub title: PackageTitle,
    pub description: String,
    pub dependencies: Option<Vec<PackageTitle>>,
    pub source: Source,
    pub networking: Option<Networking>,
    pub storage: Option<Storage>,
    pub system: Option<System>,
    pub resources: Option<Resources>,
    pub prompts: Option<PromptCollection>,
}

impl Default for SourcePackage {
    /// The default package has an empty title and no optional sections.
    fn default() -> (r: Self)
        ensures
            r.title.name@ == Seq::<char>::empty(),
            r.title.version@ == Seq::<char>::empty(),
            r.description@ == Seq::<char>::empty(),
            r.dependencies is None,
            r.source matches Source::Container(t) && t.input@ == "scratch"@,
            r.networking is None,
            r.storage is None,
            r.system is None,
            r.resources is None,
            r.prompts is None,
    {
        SourcePackage {
            title: PackageTitle::default(),
            description: String::new(),
            dependencies: None,
            source: Source::default(),
            networking: None,
            storage: None,
            system: None,
            resources: None,
            prompts: None,
        }
    }
}

/// A package after template expansion: every scalar resolved, every
/// optional section materialized to its empty form.
#[derive(Debug, Clone, PartialEq, Eq)]
pub struct CompiledPackage {
    pub title: PackageTitle,
    pub description: String,
    pub dependencies: Vec<PackageTitle>,
    pub source: CompiledSource,
    pub networking: CompiledNetworking,
    pub storage: CompiledStorage,
    pub system: CompiledSystem,
    pub resources: CompiledResources,
}

impl Default for CompiledPackage {
    /// The default compiled package is entirely empty.
    fn default() -> (r: Self)
        ensures
            r.title.name@ == Seq::<char>::empty(),
            r.title.version@ == Seq::<char>::empty(),
            r.description@ == Seq::<char>::empty(),
            r.dependencies@ == Seq::<PackageTitle>::empty(),
            r.source matches CompiledSource::Container(s) && s@ == "scratch"@,
            r.networking.forward_ports@.len() == 0,
            r.networking.expose_ports@.len() == 0,
            r.networking.internal_network is None,
            r.networking.hostname is None,
            r.storage.volumes@.len() == 0,
            !r.system.host_pid,
            !r.system.host_net,
            r.system.capabilities@.len() == 0,
            !r.system.privileged,
            r.resources.cpus == 0u64,
            r.resources.memory == 0u64,
    {
        CompiledPackage {
            title: PackageTitle::default(),
            description: String::new(),
            dependencies: Vec::new(),
            source: CompiledSource::default(),
            networking: CompiledNetworking::default(),
            storage: CompiledStorage::default(),
            system: CompiledSystem::default(),
            resources: CompiledResources::default(),
        }
    }
}

/// Whether a whole source package compiles: its source field and every
/// declared section; absent sections always do.
pub open spec fn package_ok(
    p: SourcePackage,
    g: Seq<(Seq<char>, Seq<char>)>,
    rp: Seq<(Seq<char>, Seq<char>)>,
) -> bool {
    &&& source_ok(p.source, g, rp)
    &&& (p.networking matches Some(n) ==> networking_ok(n, g, rp))
    &&& (p.storage matches Some(s) ==> storage_ok(s, g, rp))
    &&& (p.system matches Some(s) ==> system_ok(s, g, rp))
    &&& (p.resources matches Some(s) ==> resources_ok(s, g, rp))
}

/// The compiled form of a whole package: the title, description and
/// dependency list carry over, each section is its compiled form or the
/// empty form when absent.
pub open spec fn package_compiled(
    p: SourcePackage,
    c: CompiledPackage,
    g: Seq<(Seq<char>, Seq<char>)>,
    rp: Seq<(Seq<char>, Seq<char>)>,
) -> bool {
    &&& c.title.name@ == p.title.name@
    &&& c.title.version@ == p.title.version@
    &&& c.description@ == p.description@
    &&& (match p.dependencies {
        Some(d) => titles_view(c.dependencies@) == titles_view(d@),
        None => c.dependencies@.len() == 0,
    })
    &&& source_compiled(p.source, c.source, g, rp)
    &&& (match p.networking {
        Some(n) => networking_compiled(n, c.networking, g, rp),
        None => c.networking.forward_ports@.len() == 0 && c.networking.expose_ports@.len() == 0
            && c.networking.internal_network is None && c.networking.hostname is None,
    })
    &&& (match p.storage {
        Some(s) => storage_compiled(s, c.storage, g, rp),
        None => c.storage.volumes@.len() == 0,
    })
    &&& (match p.system {
        Some(s) => system_compiled(s, c.system, g, rp),
        None => !c.system.host_pid && !c.system.host_net && c.system.capabilities@.len() == 0
            && !c.system.privileged,
    })
    &&& (match p.resources {
        Some(s) => resources_compiled(s, c.resources, g, rp),
        None => c.resources.cpus == 0 && c.resources.memory == 0,
    })
}

impl SourcePackage {
    /// The package's prompt collection, or the empty one.
    pub fn prompt_collection(&self) -> (r: PromptCollection)
        ensures
            match self.prompts {
                Some(p) => prompts_view(r.0@) == prompts_view(p.0@),
                None => r.0@.len() == 0,
            },
    {
        match &self.prompts {
            Some(p) => p.duplicate(),
            None => PromptCollection(Vec::new()),
        }
    }

    /// Resolves the package against its host variables and the stored
    /// responses: every templated field runs through both passes and is
    /// coerced; the first failure aborts the compilation.
    pub fn compile(&self, globals: &Global, responses: &PromptResponses) -> (r: Result<
        CompiledPackage,
        Error,
    >)
        ensures
            ({
                let g = pairs_view(globals.variables@);
                let rp = response_pairs(responses.0@);
                match r {
                    Ok(c) => package_ok(*self, g, rp) && package_compiled(*self, c, g, rp),
                    Err(_) => !package_ok(*self, g, rp),
                }
            }),
    {
        let prompts = self.prompt_collection();
        let source = self.source.compile(globals, &prompts, responses)?;
        let networking = match &self.networking {
            Some(n) => n.compile(globals, &prompts, responses)?,
            None => CompiledNetworking::default(),
        };
        let storage = match &self.storage {
            Some(s) => s.compile(globals, &prompts, responses)?,
            None => CompiledStorage::default(),
        };
        let system = match &self.system {
            Some(s) => s.compile(globals, &prompts, responses)?,
            None => CompiledSystem::default(),
        };
        let resources = match &self.resources {
            Some(s) => s.compile(globals, &prompts, responses)?,
            None => CompiledResources::default(),
        };
        let dependencies = match &self.dependencies {
            Some(d) => duplicate_titles(d),
            None => Vec::new(),
        };
        Ok(CompiledPackage {
            title: self.title.duplicate(),
            description: self.description.clone(),
            dependencies,
            source,
            networking,
            storage,
            system,
            resources,
        })
    }
}

} // verus!
