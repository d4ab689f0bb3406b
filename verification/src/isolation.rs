use vstd::prelude::*;
use vstd::string::StringExecFns;

verus! {

/// The kernel's flag bits for the namespace kinds the cloner uses, and
/// for address-space sharing, which it must never request.
pub const CLONE_VM_BIT: u64 = 0x100;

pub const CLONE_NEWNS_BIT: u64 = 0x20000;

pub const CLONE_NEWCGROUP_BIT: u64 = 0x2000000;

pub const CLONE_NEWUTS_BIT: u64 = 0x4000000;

pub const CLONE_NEWUSER_BIT: u64 = 0x10000000;

pub const CLONE_NEWPID_BIT: u64 = 0x20000000;

pub const CLONE_NEWNET_BIT: u64 = 0x40000000;

/// The signal the child raises on exit so the parent can reap it.
pub const CHILD_EXIT_SIGNAL: i32 = 17;

/// The stack handed to the child-creation primitive: at least 1 MiB,
/// heap-allocated, never shared with the parent.
pub const STACK_SIZE: usize = 1024 * 1024;

/// The namespace mask for a fresh child: new PID, mount, net, user,
/// UTS and cgroup namespaces, and never a shared address space, which
/// would let the child's namespace setup corrupt the daemon.
pub fn default_namespace_flags() -> (r: u64)
    ensures
        r == (CLONE_NEWPID_BIT | CLONE_NEWNS_BIT | CLONE_NEWNET_BIT | CLONE_NEWUSER_BIT
            | CLONE_NEWUTS_BIT | CLONE_NEWCGROUP_BIT),
        r & CLONE_VM_BIT == 0,
        r & CLONE_NEWPID_BIT != 0,
        r & CLONE_NEWNS_BIT != 0,
        r & CLONE_NEWNET_BIT != 0,
        r & CLONE_NEWUSER_BIT != 0,
        r & CLONE_NEWUTS_BIT != 0,
        r & CLONE_NEWCGROUP_BIT != 0,
{
    let r = CLONE_NEWPID_BIT | CLONE_NEWNS_BIT | CLONE_NEWNET_BIT | CLONE_NEWUSER_BIT
        | CLONE_NEWUTS_BIT | CLONE_NEWCGROUP_BIT;
    proof {
        assert({
            let v = (0x20000000u64 | 0x20000u64 | 0x40000000u64 | 0x10000000u64 | 0x4000000u64
                | 0x2000000u64);
            v & 0x100u64 == 0 && v & 0x20000000u64 != 0 && v & 0x20000u64 != 0 && v
                & 0x40000000u64 != 0 && v & 0x10000000u64 != 0 && v & 0x4000000u64 != 0 && v
                & 0x2000000u64 != 0
        }) by (bit_vector);
    }
    r
}

/// One step of the child's prelude, run inside the fresh namespaces
/// before the user-supplied work.
pub enum IsolationStep {
    /// Recursively remount `/` private, so later mounts do not
    /// propagate back to the host.
    RemountPrivate,
    /// Bind-mount the prepared root onto itself, pivot into it, change
    /// directory to `/`, lazily detach the old root.
    PivotRoot,
    /// Mount `proc` at `/proc`; a prerequisite for the identity maps.
    MountProc,
    /// Mount `sysfs` at `/sys`.
    MountSysfs,
    /// Write `deny` to `/proc/self/setgroups`; the kernel requires this
    /// before a gid map can be written.
    DenySetgroups,
    /// Write the single-entry gid map.
    WriteGidMap,
    /// Write the single-entry uid map.
    WriteUidMap,
    /// Run the user-supplied work and send its outcome down the result
    /// channel.
    RunWork,
}

/// The required order of the child's prelude: privacy remount, then the
/// root pivot, the virtual filesystems, setgroups denial before the gid
/// map, the identity maps, and only then the work.
pub open spec fn spec_isolation_plan() -> Seq<IsolationStep> {
    seq![
        IsolationStep::RemountPrivate,
        IsolationStep::PivotRoot,
        IsolationStep::MountProc,
        IsolationStep::MountSysfs,
        IsolationStep::DenySetgroups,
        IsolationStep::WriteGidMap,
        IsolationStep::WriteUidMap,
        IsolationStep::RunWork,
    ]
}

/// The child's prelude as a list the runtime executes in order; each
/// step that fails turns into a failure outcome on the result channel
/// and a nonzero child exit.
pub fn isolation_plan() -> (r: Vec<IsolationStep>)
    ensures
        r@ == spec_isolation_plan(),
{
    let mut r: Vec<IsolationStep> = Vec::new();
    r.push(IsolationStep::RemountPrivate);
    r.push(IsolationStep::PivotRoot);
    r.push(IsolationStep::MountProc);
    r.push(IsolationStep::MountSysfs);
    r.push(IsolationStep::DenySetgroups);
    r.push(IsolationStep::WriteGidMap);
    r.push(IsolationStep::WriteUidMap);
    r.push(IsolationStep::RunWork);
    proof {
        assert(r@ =~= spec_isolation_plan());
    }
    r
}

/// The character for one decimal digit.
pub open spec fn digit_char(d: nat) -> char {
    if d == 0 {
        '0'
    } else if d == 1 {
        '1'
    } else if d == 2 {
        '2'
    } else if d == 3 {
        '3'
    } else if d == 4 {
        '4'
    } else if d == 5 {
        '5'
    } else if d == 6 {
        '6'
    } else if d == 7 {
        '7'
    } else if d == 8 {
        '8'
    } else {
        '9'
    }
}

/// The decimal digits of a number, most significant first.
pub open spec fn dec_digits(n: nat) -> Seq<char>
    decreases n,
{
    if n < 10 {
        seq![digit_char(n)]
    } else {
        dec_digits(n / 10).push(digit_char(n % 10))
    }
}

fn digit_str(d: u32) -> (r: &'static str)
    requires
        d < 10,
    ensures
        r@ == seq![digit_char(d as nat)],
{
    proof {
        reveal_strlit("0");
        reveal_strlit("1");
        reveal_strlit("2");
        reveal_strlit("3");
        reveal_strlit("4");
        reveal_strlit("5");
        reveal_strlit("6");
        reveal_strlit("7");
        reveal_strlit("8");
        reveal_strlit("9");
    }
    let r = match d {
        0 => "0",
        1 => "1",
        2 => "2",
        3 => "3",
        4 => "4",
        5 => "5",
        6 => "6",
        7 => "7",
        8 => "8",
        _ => "9",
    };
    proof {
        assert(r@ =~= seq![digit_char(d as nat)]);
    }
    r
}

/// The decimal rendering of a number, for the identity-map lines.
pub fn u32_to_string(n: u32) -> (r: String)
    ensures
        r@ == dec_digits(n as nat),
    decreases n,
{
    if n < 10 {
        String::from_str(digit_str(n))
    } else {
        let mut s = u32_to_string(n / 10);
        s.append(digit_str(n % 10));
        proof {
            assert(s@ =~= dec_digits(n as nat));
        }
        s
    }
}

/// The content of a single-entry identity map line:
/// `<inside> <outside> <length>`, decimal, space-separated.
pub open spec fn spec_id_map_line(inside: nat, outside: nat, length: nat) -> Seq<char> {
    dec_digits(inside) + seq![' '] + dec_digits(outside) + seq![' '] + dec_digits(length)
}

/// Renders the line written to `/proc/self/uid_map` or
/// `/proc/self/gid_map`: the inside id, the outside id captured before
/// the clone, and the mapping length.
pub fn id_map_line(inside: u32, outside: u32, length: u32) -> (r: String)
    ensures
        r@ == spec_id_map_line(inside as nat, outside as nat, length as nat),
{
    proof {
        reveal_strlit(" ");
    }
    let mut s = u32_to_string(inside);
    s.append(" ");
    let outside_s = u32_to_string(outside);
    s.append(outside_s.as_str());
    s.append(" ");
    let length_s = u32_to_string(length);
    s.append(length_s.as_str());
    proof {
        assert(" "@ =~= seq![' ']);
        assert(s@ =~= spec_id_map_line(inside as nat, outside as nat, length as nat));
    }
    s
}

} // verus!
