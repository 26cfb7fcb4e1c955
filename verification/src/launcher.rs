//! The launcher: from a compiled package, the exact argument list for the
//! container runtime or the VM monitor, and the control-socket plan that
//! stops a running VM. The processes themselves are spawned outside; this
//! module decides every character of what runs.

use vstd::prelude::*;
use vstd::string::*;

use crate::errors::Error;
use crate::package::CompiledPackage;
use crate::package::CompiledSource;
use crate::package::CompiledVolume;
use crate::text::dec_digits;
use crate::text::str_eq;
use crate::text::strs;
use crate::text::u64_to_string;

verus! {

/// `name-version`.
pub open spec fn title_chars(name: Seq<char>, version: Seq<char>) -> Seq<char> {
    name + "-"@ + version
}

/// The `-p host:guest` pairs for a port list, from index `i` on.
pub open spec fn ports_args(ps: Seq<(u16, u16)>, i: int) -> Seq<Seq<char>>
    decreases ps.len() - i,
{
    if i < 0 || i >= ps.len() {
        Seq::empty()
    } else {
        seq!["-p"@, dec_digits(ps[i].0 as nat) + ":"@ + dec_digits(ps[i].1 as nat)] + ports_args(
            ps,
            i + 1,
        )
    }
}

/// The `-v root/name:mountpoint:rshared` pairs for the mounted volumes,
/// from index `i` on; volumes without a mountpoint are block devices and
/// contribute nothing here.
pub open spec fn volume_args(vs: Seq<CompiledVolume>, root: Seq<char>, i: int) -> Seq<Seq<char>>
    decreases vs.len() - i,
{
    if i < 0 || i >= vs.len() {
        Seq::empty()
    } else {
        (match vs[i].mountpoint {
            Some(m) => seq!["-v"@, root + "/"@ + vs[i].name@ + ":"@ + m@ + ":rshared"@],
            None => Seq::empty(),
        }) + volume_args(vs, root, i + 1)
    }
}

/// The `--cap-add` pairs for the capability list, from index `i` on.
pub open spec fn caps_args(cs: Seq<String>, i: int) -> Seq<Seq<char>>
    decreases cs.len() - i,
{
    if i < 0 || i >= cs.len() {
        Seq::empty()
    } else {
        seq!["--cap-add"@, cs[i]@] + caps_args(cs, i + 1)
    }
}

/// The full container argument list: the runtime, the run flags, the
/// network and volume mappings, the privilege flags, and the image last.
pub open spec fn container_argv(p: CompiledPackage, root: Seq<char>, image: Seq<char>) -> Seq<
    Seq<char>,
> {
    seq!["podman"@, "run"@, "--rm"@, "--name"@, title_chars(p.title.name@, p.title.version@)] + (
    match p.networking.hostname {
        Some(h) => seq!["--hostname"@, h@],
        None => Seq::empty(),
    }) + (match p.networking.internal_network {
        Some(n) => seq!["--network"@, n@],
        None => Seq::empty(),
    }) + ports_args(p.networking.forward_ports@, 0) + ports_args(p.networking.expose_ports@, 0)
        + volume_args(p.storage.volumes@, root, 0) + (if p.system.host_pid {
        seq!["--pid"@, "host"@]
    } else {
        Seq::empty()
    }) + (if p.system.host_net && p.networking.internal_network is None {
        seq!["--network"@, "host"@]
    } else {
        Seq::empty()
    }) + (if p.system.privileged {
        seq!["--privileged"@]
    } else {
        Seq::empty()
    }) + caps_args(p.system.capabilities@, 0) + seq![image]
}

/// Renders `host:guest`.
fn port_pair_string(h: u16, g: u16) -> (r: String)
    ensures
        r@ == dec_digits(h as nat) + ":"@ + dec_digits(g as nat),
{
    let mut out = u64_to_string(h as u64);
    out.append(":");
    let gs = u64_to_string(g as u64);
    out.append(gs.as_str());
    proof {
        assert(out@ =~= dec_digits(h as nat) + ":"@ + dec_digits(g as nat));
    }
    out
}

/// The argument list that launches a container package.
pub fn generate_container_command(package: &CompiledPackage, volume_root: &str) -> (r: Result<
    Vec<String>,
    Error,
>)
    ensures
        match r {
            Ok(v) => package.source matches CompiledSource::Container(img) && strs(v@)
                == container_argv(*package, volume_root@, img@),
            Err(e) => !(package.source is Container) && e == Error::WrongSourceKind,
        },
{
    let image = match &package.source {
        CompiledSource::Container(img) => img,
        CompiledSource::URL(_) => {
            return Err(Error::WrongSourceKind);
        },
    };
    let ghost root = volume_root@;
    let mut cmd: Vec<String> = Vec::new();
    cmd.push(String::from_str("podman"));
    cmd.push(String::from_str("run"));
    cmd.push(String::from_str("--rm"));
    cmd.push(String::from_str("--name"));
    cmd.push(package.title.to_string());
    let ghost base0 = strs(cmd@);
    proof {
        assert(base0 =~= seq![
            "podman"@,
            "run"@,
            "--rm"@,
            "--name"@,
            title_chars(package.title.name@, package.title.version@),
        ]);
    }
    match &package.networking.hostname {
        Some(h) => {
            cmd.push(String::from_str("--hostname"));
            cmd.push(String::from_str(h.as_str()));
        },
        None => {},
    }
    match &package.networking.internal_network {
        Some(n) => {
            cmd.push(String::from_str("--network"));
            cmd.push(String::from_str(n.as_str()));
        },
        None => {},
    }
    let ghost base1 = strs(cmd@);
    proof {
        assert(base1 =~= base0 + (match package.networking.hostname {
            Some(h) => seq!["--hostname"@, h@],
            None => Seq::<Seq<char>>::empty(),
        }) + (match package.networking.internal_network {
            Some(n) => seq!["--network"@, n@],
            None => Seq::<Seq<char>>::empty(),
        }));
    }
    let ghost fwd = package.networking.forward_ports@;
    let mut i: usize = 0;
    while i < package.networking.forward_ports.len()
        invariant
            i <= fwd.len(),
            fwd == package.networking.forward_ports@,
            strs(cmd@) + ports_args(fwd, i as int) == base1 + ports_args(fwd, 0),
        decreases fwd.len() - i,
    {
        let ghost before = strs(cmd@);
        let pair = package.networking.forward_ports[i];
        cmd.push(String::from_str("-p"));
        cmd.push(port_pair_string(pair.0, pair.1));
        proof {
            assert(strs(cmd@) =~= before + seq![
                "-p"@,
                dec_digits(fwd[i as int].0 as nat) + ":"@ + dec_digits(fwd[i as int].1 as nat),
            ]);
            assert(strs(cmd@) + ports_args(fwd, i + 1) =~= before + ports_args(fwd, i as int));
        }
        i = i + 1;
    }
    let ghost base2 = strs(cmd@);
    proof {
        assert(ports_args(fwd, i as int) =~= Seq::<Seq<char>>::empty());
        assert(base2 + Seq::<Seq<char>>::empty() =~= base2);
        assert(base2 =~= base1 + ports_args(fwd, 0));
    }
    let ghost exp = package.networking.expose_ports@;
    let mut i2: usize = 0;
    while i2 < package.networking.expose_ports.len()
        invariant
            i2 <= exp.len(),
            exp == package.networking.expose_ports@,
            strs(cmd@) + ports_args(exp, i2 as int) == base2 + ports_args(exp, 0),
        decreases exp.len() - i2,
    {
        let ghost before = strs(cmd@);
        let pair = package.networking.expose_ports[i2];
        cmd.push(String::from_str("-p"));
        cmd.push(port_pair_string(pair.0, pair.1));
        proof {
            assert(strs(cmd@) =~= before + seq![
                "-p"@,
                dec_digits(exp[i2 as int].0 as nat) + ":"@ + dec_digits(exp[i2 as int].1 as nat),
            ]);
            assert(strs(cmd@) + ports_args(exp, i2 + 1) =~= before + ports_args(exp, i2 as int));
        }
        i2 = i2 + 1;
    }
    let ghost base3 = strs(cmd@);
    proof {
        assert(ports_args(exp, i2 as int) =~= Seq::<Seq<char>>::empty());
        assert(base3 + Seq::<Seq<char>>::empty() =~= base3);
        assert(base3 =~= base2 + ports_args(exp, 0));
    }
    let ghost vols = package.storage.volumes@;
    let mut i3: usize = 0;
    while i3 < package.storage.volumes.len()
        invariant
            i3 <= vols.len(),
            vols == package.storage.volumes@,
            root == volume_root@,
            strs(cmd@) + volume_args(vols, root, i3 as int) == base3 + volume_args(vols, root, 0),
        decreases vols.len() - i3,
    {
        let ghost before = strs(cmd@);
        match &package.storage.volumes[i3].mountpoint {
            Some(m) => {
                cmd.push(String::from_str("-v"));
                let mut map = String::from_str(volume_root);
                map.append("/");
                map.append(package.storage.volumes[i3].name.as_str());
                map.append(":");
                map.append(m.as_str());
                map.append(":rshared");
                proof {
                    assert(map@ =~= root + "/"@ + vols[i3 as int].name@ + ":"@
                        + vols[i3 as int].mountpoint.unwrap()@ + ":rshared"@);
                }
                cmd.push(map);
                proof {
                    assert(strs(cmd@) =~= before + seq![
                        "-v"@,
                        root + "/"@ + vols[i3 as int].name@ + ":"@
                            + vols[i3 as int].mountpoint.unwrap()@ + ":rshared"@,
                    ]);
                    assert(strs(cmd@) + volume_args(vols, root, i3 + 1) =~= before + volume_args(
                        vols,
                        root,
                        i3 as int,
                    ));
                }
            },
            None => {
                proof {
                    assert(before + volume_args(vols, root, i3 + 1) =~= before + volume_args(
                        vols,
                        root,
                        i3 as int,
                    ));
                }
            },
        }
        i3 = i3 + 1;
    }
    let ghost base4 = strs(cmd@);
    proof {
        assert(volume_args(vols, root, i3 as int) =~= Seq::<Seq<char>>::empty());
        assert(base4 + Seq::<Seq<char>>::empty() =~= base4);
        assert(base4 =~= base3 + volume_args(vols, root, 0));
    }
    if package.system.host_pid {
        cmd.push(String::from_str("--pid"));
        cmd.push(String::from_str("host"));
    }
    let host_net_applies = package.system.host_net && match &package.networking.internal_network {
        Some(_) => false,
        None => true,
    };
    if host_net_applies {
        cmd.push(String::from_str("--network"));
        cmd.push(String::from_str("host"));
    }
    if package.system.privileged {
        cmd.push(String::from_str("--privileged"));
    }
    let ghost base5 = strs(cmd@);
    proof {
        assert(base5 =~= base4 + (if package.system.host_pid {
            seq!["--pid"@, "host"@]
        } else {
            Seq::<Seq<char>>::empty()
        }) + (if package.system.host_net && package.networking.internal_network is None {
            seq!["--network"@, "host"@]
        } else {
            Seq::<Seq<char>>::empty()
        }) + (if package.system.privileged {
            seq!["--privileged"@]
        } else {
            Seq::<Seq<char>>::empty()
        }));
    }
    let ghost caps = package.system.capabilities@;
    let mut i4: usize = 0;
    while i4 < package.system.capabilities.len()
        invariant
            i4 <= caps.len(),
            caps == package.system.capabilities@,
            strs(cmd@) + caps_args(caps, i4 as int) == base5 + caps_args(caps, 0),
        decreases caps.len() - i4,
    {
        let ghost before = strs(cmd@);
        cmd.push(String::from_str("--cap-add"));
        cmd.push(String::from_str(package.system.capabilities[i4].as_str()));
        proof {
            assert(strs(cmd@) =~= before + seq!["--cap-add"@, caps[i4 as int]@]);
            assert(strs(cmd@) + caps_args(caps, i4 + 1) =~= before + caps_args(caps, i4 as int));
        }
        i4 = i4 + 1;
    }
    proof {
        assert(caps_args(caps, i4 as int) =~= Seq::<Seq<char>>::empty());
        assert(strs(cmd@) + Seq::<Seq<char>>::empty() =~= strs(cmd@));
        assert(strs(cmd@) =~= base5 + caps_args(caps, 0));
    }
    let ghost base6 = strs(cmd@);
    cmd.push(String::from_str(image.as_str()));
    proof {
        assert(strs(cmd@) =~= base6 + seq![package.source->Container_0@]);
        assert(strs(cmd@) =~= container_argv(
            *package,
            volume_root@,
            package.source->Container_0@,
        ));
    }
    Ok(cmd)
}

/// The `,hostfwd=tcp:0.0.0.0:host-:guest` rules of a port list, from
/// index `i` on.
pub open spec fn fwd_chars(ps: Seq<(u16, u16)>, i: int) -> Seq<char>
    decreases ps.len() - i,
{
    if i < 0 || i >= ps.len() {
        Seq::empty()
    } else {
        ",hostfwd=tcp:0.0.0.0:"@ + dec_digits(ps[i].0 as nat) + "-:"@ + dec_digits(ps[i].1 as nat)
            + fwd_chars(ps, i + 1)
    }
}

/// One `-drive` value for a file at an index.
pub open spec fn drive_chars(file: Seq<char>, idx: nat) -> Seq<char> {
    "driver=raw,if=virtio,file="@ + file + ",cache=none,media=disk,index="@ + dec_digits(idx)
}

/// The `-drive` pairs of the storage volumes, from index `i` on; the
/// first drive slot belongs to the VM image, so volumes start at one.
pub open spec fn vol_drive_args(vs: Seq<CompiledVolume>, root: Seq<char>, i: int) -> Seq<Seq<char>>
    decreases vs.len() - i,
{
    if i < 0 || i >= vs.len() {
        Seq::empty()
    } else {
        seq!["-drive"@, drive_chars(root + "/"@ + vs[i].name@, (i + 1) as nat)] + vol_drive_args(
            vs,
            root,
            i + 1,
        )
    }
}

/// The full VM argument list: the monitor socket, machine flags, memory
/// and CPU shape, the user NIC with its forward rules, the image drive,
/// and one drive per volume.
pub open spec fn vm_argv(p: CompiledPackage, root: Seq<char>) -> Seq<Seq<char>> {
    seq![
        "qemu-system-x86_64"@,
        "-nodefaults"@,
        "-chardev"@,
        "socket,server=on,wait=off,id=char0,path="@ + root + "/qemu-monitor"@,
        "-mon"@,
        "chardev=char0,mode=control,pretty=on"@,
        "-machine"@,
        "accel=kvm"@,
        "-vga"@,
        "none"@,
        "-m"@,
        dec_digits(p.resources.memory as nat) + "M"@,
        "-cpu"@,
        "max"@,
        "-smp"@,
        "cpus="@ + dec_digits(p.resources.cpus as nat) + ",cores="@ + dec_digits(
            p.resources.cpus as nat,
        ) + ",maxcpus="@ + dec_digits(p.resources.cpus as nat),
        "-nic"@,
        "user"@ + fwd_chars(p.networking.forward_ports@, 0) + fwd_chars(
            p.networking.expose_ports@,
            0,
        ),
        "-drive"@,
        drive_chars(root + "/image"@, 0),
    ] + vol_drive_args(p.storage.volumes@, root, 0)
}

/// Whether some volume bears a name reserved for the VM image or its
/// monitor socket.
pub open spec fn has_reserved_volume(vs: Seq<CompiledVolume>) -> bool {
    exists|i: int|
        0 <= i < vs.len() && ((#[trigger] vs[i]).name@ == "image"@ || vs[i].name@
            == "qemu-monitor"@)
}

/// Appends the forward rules of one port list to `out`.
fn push_fwd_rules(out: &mut String, ports: &Vec<(u16, u16)>)
    ensures
        final(out)@ == old(out)@ + fwd_chars(ports@, 0),
{
    let ghost start = out@;
    let mut i: usize = 0;
    while i < ports.len()
        invariant
            i <= ports@.len(),
            out@ + fwd_chars(ports@, i as int) == start + fwd_chars(ports@, 0),
        decreases ports@.len() - i,
    {
        let ghost before = out@;
        out.append(",hostfwd=tcp:0.0.0.0:");
        let h = u64_to_string(ports[i].0 as u64);
        out.append(h.as_str());
        out.append("-:");
        let g = u64_to_string(ports[i].1 as u64);
        out.append(g.as_str());
        proof {
            assert(out@ =~= before + (",hostfwd=tcp:0.0.0.0:"@ + dec_digits(
                ports@[i as int].0 as nat,
            ) + "-:"@ + dec_digits(ports@[i as int].1 as nat)));
            assert(out@ + fwd_chars(ports@, i + 1) =~= before + fwd_chars(ports@, i as int));
        }
        i = i + 1;
    }
    proof {
        assert(fwd_chars(ports@, i as int) =~= Seq::<char>::empty());
        assert(out@ + Seq::<char>::empty() =~= out@);
    }
}

/// Renders one `-drive` value.
fn drive_string(file: &str, idx: u64) -> (r: String)
    ensures
        r@ == drive_chars(file@, idx as nat),
{
    let mut out = String::from_str("driver=raw,if=virtio,file=");
    out.append(file);
    out.append(",cache=none,media=disk,index=");
    let d = u64_to_string(idx);
    out.append(d.as_str());
    proof {
        assert(out@ =~= drive_chars(file@, idx as nat));
    }
    out
}

/// The argument list that launches a VM package; the volume names
/// `image` and `qemu-monitor` are reserved.
pub fn generate_vm_command(package: &CompiledPackage, volume_root: &str) -> (r: Result<
    Vec<String>,
    Error,
>)
    ensures
        match r {
            Ok(v) => !has_reserved_volume(package.storage.volumes@) && strs(v@) == vm_argv(
                *package,
                volume_root@,
            ),
            Err(_) => has_reserved_volume(package.storage.volumes@),
        },
{
    let ghost root = volume_root@;
    let ghost vols = package.storage.volumes@;
    let mut k: usize = 0;
    while k < package.storage.volumes.len()
        invariant
            k <= vols.len(),
            vols == package.storage.volumes@,
            forall|j: int|
                0 <= j < k ==> !((#[trigger] vols[j]).name@ == "image"@ || vols[j].name@
                    == "qemu-monitor"@),
        decreases vols.len() - k,
    {
        if str_eq(package.storage.volumes[k].name.as_str(), "image") || str_eq(
            package.storage.volumes[k].name.as_str(),
            "qemu-monitor",
        ) {
            return Err(Error::ReservedVolumeName(String::from_str(
                package.storage.volumes[k].name.as_str(),
            )));
        }
        k = k + 1;
    }
    let mut cmd: Vec<String> = Vec::new();
    cmd.push(String::from_str("qemu-system-x86_64"));
    cmd.push(String::from_str("-nodefaults"));
    cmd.push(String::from_str("-chardev"));
    let mut chardev = String::from_str("socket,server=on,wait=off,id=char0,path=");
    chardev.append(volume_root);
    chardev.append("/qemu-monitor");
    proof {
        assert(chardev@ =~= "socket,server=on,wait=off,id=char0,path="@ + root + "/qemu-monitor"@);
    }
    cmd.push(chardev);
    cmd.push(String::from_str("-mon"));
    cmd.push(String::from_str("chardev=char0,mode=control,pretty=on"));
    cmd.push(String::from_str("-machine"));
    cmd.push(String::from_str("accel=kvm"));
    cmd.push(String::from_str("-vga"));
    cmd.push(String::from_str("none"));
    cmd.push(String::from_str("-m"));
    let mut mem = u64_to_string(package.resources.memory);
    mem.append("M");
    cmd.push(mem);
    cmd.push(String::from_str("-cpu"));
    cmd.push(String::from_str("max"));
    cmd.push(String::from_str("-smp"));
    let cpus = u64_to_string(package.resources.cpus);
    let mut smp = String::from_str("cpus=");
    smp.append(cpus.as_str());
    smp.append(",cores=");
    smp.append(cpus.as_str());
    smp.append(",maxcpus=");
    smp.append(cpus.as_str());
    proof {
        assert(smp@ =~= "cpus="@ + dec_digits(package.resources.cpus as nat) + ",cores="@
            + dec_digits(package.resources.cpus as nat) + ",maxcpus="@ + dec_digits(
            package.resources.cpus as nat,
        ));
    }
    cmd.push(smp);
    cmd.push(String::from_str("-nic"));
    let mut nic = String::from_str("user");
    push_fwd_rules(&mut nic, &package.networking.forward_ports);
    push_fwd_rules(&mut nic, &package.networking.expose_ports);
    proof {
        assert(nic@ =~= "user"@ + fwd_chars(package.networking.forward_ports@, 0) + fwd_chars(
            package.networking.expose_ports@,
            0,
        ));
    }
    cmd.push(nic);
    cmd.push(String::from_str("-drive"));
    let mut image_path = String::from_str(volume_root);
    image_path.append("/image");
    proof {
        assert(image_path@ =~= root + "/image"@);
    }
    cmd.push(drive_string(image_path.as_str(), 0));
    let ghost base = strs(cmd@);
    proof {
        assert(base =~= vm_argv(*package, root).take(20));
        assert(vm_argv(*package, root) =~= vm_argv(*package, root).take(20) + vol_drive_args(
            vols,
            root,
            0,
        ));
    }
    let mut x: usize = 0;
    while x < package.storage.volumes.len()
        invariant
            x <= vols.len(),
            vols == package.storage.volumes@,
            root == volume_root@,
            strs(cmd@) + vol_drive_args(vols, root, x as int) == base + vol_drive_args(
                vols,
                root,
                0,
            ),
        decreases vols.len() - x,
    {
        let ghost before = strs(cmd@);
        cmd.push(String::from_str("-drive"));
        let mut file = String::from_str(volume_root);
        file.append("/");
        file.append(package.storage.volumes[x].name.as_str());
        proof {
            assert(file@ =~= root + "/"@ + vols[x as int].name@);
        }
        let idx: u64 = (x as u64) + 1;
        cmd.push(drive_string(file.as_str(), idx));
        proof {
            assert(strs(cmd@) =~= before + seq![
                "-drive"@,
                drive_chars(root + "/"@ + vols[x as int].name@, (x + 1) as nat),
            ]);
            assert(strs(cmd@) + vol_drive_args(vols, root, x + 1) =~= before + vol_drive_args(
                vols,
                root,
                x as int,
            ));
        }
        x = x + 1;
    }
    proof {
        assert(vol_drive_args(vols, root, x as int) =~= Seq::<Seq<char>>::empty());
        assert(strs(cmd@) + Seq::<Seq<char>>::empty() =~= strs(cmd@));
        assert(strs(cmd@) =~= vm_argv(*package, root));
    }
    Ok(cmd)
}

/// The argument list that launches a package, by its source kind.
pub fn generate_command(package: &CompiledPackage, volume_root: &str) -> (r: Result<
    Vec<String>,
    Error,
>)
    ensures
        match r {
            Ok(v) => match package.source {
                CompiledSource::URL(_) => !has_reserved_volume(package.storage.volumes@) && strs(
                    v@,
                ) == vm_argv(*package, volume_root@),
                CompiledSource::Container(img) => strs(v@) == container_argv(
                    *package,
                    volume_root@,
                    img@,
                ),
            },
            Err(_) => match package.source {
                CompiledSource::URL(_) => has_reserved_volume(package.storage.volumes@),
                CompiledSource::Container(_) => false,
            },
        },
{
    match &package.source {
        CompiledSource::URL(_) => generate_vm_command(package, volume_root),
        CompiledSource::Container(_) => generate_container_command(package, volume_root),
    }
}

/// A line-delimited control command for the VM monitor.
pub open spec fn qmp_line(name: Seq<char>) -> Seq<char> {
    "{\"execute\":\""@ + name + "\"}"@
}

/// Renders one control command line.
pub fn qmp_command_line(name: &str) -> (r: String)
    ensures
        r@ == qmp_line(name@),
{
    let mut out = String::from_str("{\"execute\":\"");
    out.append(name);
    out.append("\"}");
    proof {
        assert(out@ =~= qmp_line(name@));
    }
    out
}

/// Classifies one control-socket response, given which keys its parsed
/// object carries: a `return` key means success, an `error` key failure.
pub fn qmp_response_ok(has_return: bool, has_error: bool) -> (r: bool)
    ensures
        r == (has_return && !has_error),
{
    has_return && !has_error
}

/// A plan against the VM control socket: the socket path and the command
/// lines to send after reading the greeting.
#[derive(Debug, Clone, PartialEq, Eq)]
pub struct QmpPlan {
    pub socket: String,
    pub commands: Vec<String>,
}

/// The control socket of a package's VM under a volume root.
pub open spec fn monitor_socket(root: Seq<char>) -> Seq<char> {
    root + "/qemu-monitor"@
}

fn monitor_socket_path(volume_root: &str) -> (r: String)
    ensures
        r@ == monitor_socket(volume_root@),
{
    let mut out = String::from_str(volume_root);
    out.append("/qemu-monitor");
    proof {
        assert(out@ =~= monitor_socket(volume_root@));
    }
    out
}

/// The plan that checks the VM is alive: the capabilities handshake and
/// nothing more.
pub fn vm_ping(package: &CompiledPackage, volume_root: &str) -> (r: QmpPlan)
    ensures
        r.socket@ == monitor_socket(volume_root@),
        strs(r.commands@) == seq![qmp_line("qmp_capabilities"@)],
{
    let mut commands: Vec<String> = Vec::new();
    commands.push(qmp_command_line("qmp_capabilities"));
    proof {
        assert(strs(commands@) =~= seq![qmp_line("qmp_capabilities"@)]);
    }
    QmpPlan { socket: monitor_socket_path(volume_root), commands }
}

/// The plan that asks the VM to power down cleanly.
pub fn vm_shutdown(package: &CompiledPackage, volume_root: &str) -> (r: QmpPlan)
    ensures
        r.socket@ == monitor_socket(volume_root@),
        strs(r.commands@) == seq![
            qmp_line("qmp_capabilities"@),
            qmp_line("system_powerdown"@),
        ],
{
    let mut commands: Vec<String> = Vec::new();
    commands.push(qmp_command_line("qmp_capabilities"));
    commands.push(qmp_command_line("system_powerdown"));
    proof {
        assert(strs(commands@) =~= seq![
            qmp_line("qmp_capabilities"@),
            qmp_line("system_powerdown"@),
        ]);
    }
    QmpPlan { socket: monitor_socket_path(volume_root), commands }
}

/// The plan that kills the VM outright.
pub fn vm_quit(package: &CompiledPackage, volume_root: &str) -> (r: QmpPlan)
    ensures
        r.socket@ == monitor_socket(volume_root@),
        strs(r.commands@) == seq![qmp_line("qmp_capabilities"@), qmp_line("quit"@)],
{
    let mut commands: Vec<String> = Vec::new();
    commands.push(qmp_command_line("qmp_capabilities"));
    commands.push(qmp_command_line("quit"));
    proof {
        assert(strs(commands@) =~= seq![qmp_line("qmp_capabilities"@), qmp_line("quit"@)]);
    }
    QmpPlan { socket: monitor_socket_path(volume_root), commands }
}

/// How a running package is stopped: a container-runtime command, or a
/// VM control-socket plan.
#[derive(Debug, Clone, PartialEq, Eq)]
pub enum StopAction {
    Container(Vec<String>),
    Vm(QmpPlan),
}

/// The plan that stops a package, by its source kind: containers are
/// removed by the runtime, VMs are powered down over the control socket.
pub fn stop_package(package: &CompiledPackage, volume_root: &str) -> (r: StopAction)
    ensures
        match r {
            StopAction::Container(v) => package.source is Container && strs(v@) == seq![
                "podman"@,
                "rm"@,
                "-f"@,
                title_chars(package.title.name@, package.title.version@),
            ],
            StopAction::Vm(plan) => package.source is URL && plan.socket@ == monitor_socket(
                volume_root@,
            ) && strs(plan.commands@) == seq![
                qmp_line("qmp_capabilities"@),
                qmp_line("system_powerdown"@),
            ],
        },
{
    match &package.source {
        CompiledSource::URL(_) => StopAction::Vm(vm_shutdown(package, volume_root)),
        CompiledSource::Container(_) => {
            let mut v: Vec<String> = Vec::new();
            v.push(String::from_str("podman"));
            v.push(String::from_str("rm"));
            v.push(String::from_str("-f"));
            v.push(package.title.to_string());
            proof {
                assert(strs(v@) =~= seq![
                    "podman"@,
                    "rm"@,
                    "-f"@,
                    title_chars(package.title.name@, package.title.version@),
                ]);
            }
            StopAction::Container(v)
        },
    }
}

} // verus!
