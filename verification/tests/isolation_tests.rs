use rrockerd::isolation::{
    default_namespace_flags, id_map_line, isolation_plan, u32_to_string, IsolationStep,
    CHILD_EXIT_SIGNAL, CLONE_VM_BIT, STACK_SIZE,
};

#[test]
fn namespace_flags_match_the_kernel_constants() {
    let flags = default_namespace_flags();
    let expected = nix::sched::CloneFlags::CLONE_NEWPID
        | nix::sched::CloneFlags::CLONE_NEWNS
        | nix::sched::CloneFlags::CLONE_NEWNET
        | nix::sched::CloneFlags::CLONE_NEWUSER
        | nix::sched::CloneFlags::CLONE_NEWUTS
        | nix::sched::CloneFlags::CLONE_NEWCGROUP;
    assert_eq!(flags, expected.bits() as u64);
    assert_eq!(flags, 0x76020000);
}

#[test]
fn address_space_sharing_is_never_requested() {
    let flags = default_namespace_flags();
    assert_eq!(flags & CLONE_VM_BIT, 0);
    assert_eq!(
        CLONE_VM_BIT,
        nix::sched::CloneFlags::CLONE_VM.bits() as u64
    );
}

#[test]
fn exit_signal_is_sigchld_and_stack_is_a_mebibyte() {
    assert_eq!(CHILD_EXIT_SIGNAL, nix::sys::signal::Signal::SIGCHLD as i32);
    assert_eq!(STACK_SIZE, 1048576);
}

#[test]
fn prelude_order_is_pivot_mounts_maps_then_work() {
    let plan = isolation_plan();
    assert!(matches!(plan[0], IsolationStep::RemountPrivate));
    assert!(matches!(plan[1], IsolationStep::PivotRoot));
    assert!(matches!(plan[2], IsolationStep::MountProc));
    assert!(matches!(plan[3], IsolationStep::MountSysfs));
    assert!(matches!(plan[4], IsolationStep::DenySetgroups));
    assert!(matches!(plan[5], IsolationStep::WriteGidMap));
    assert!(matches!(plan[6], IsolationStep::WriteUidMap));
    assert!(matches!(plan[7], IsolationStep::RunWork));
    assert_eq!(plan.len(), 8);
}

#[test]
fn decimal_rendering_is_exact() {
    assert_eq!(u32_to_string(0), "0".to_owned());
    assert_eq!(u32_to_string(42), "42".to_owned());
    assert_eq!(u32_to_string(1000), "1000".to_owned());
    assert_eq!(u32_to_string(u32::MAX), "4294967295".to_owned());
}

#[test]
fn id_map_lines_are_space_separated_decimals() {
    assert_eq!(id_map_line(0, 1000, 1), "0 1000 1".to_owned());
    assert_eq!(id_map_line(0, 0, 1), "0 0 1".to_owned());
}
