use rugpi_ctrl::boot::uboot::UBootEnv;
use rugpi_ctrl::boot::BootFlow;
use rugpi_ctrl::paths::Paths;
use rugpi_ctrl::reboot::{
    boot_spare_block, boot_spare_environment, is_init_process, reboot_command, reboot_path,
    reboot_request, remount_command, Action, Reboot, RebootError, RebootPath, Stage,
    BOOT_SPARE_ENV, CONFIG_MOUNT, DEFERRED_SPARE_REBOOT_FLAG, INIT_PID,
};

/// How the steps go when they are carried out.
#[derive(Clone, Copy)]
struct World {
    remount_writable: bool,
    save: bool,
    remount_read_only: bool,
    reboot: bool,
}

const FINE: World = World {
    remount_writable: true,
    save: true,
    remount_read_only: true,
    reboot: true,
};

/// What was done, and how things stand at the end.
struct Record {
    actions: Vec<Action>,
    writable: bool,
    syscalls: Vec<bool>,
    requests: Vec<bool>,
}

fn carry_out(pid: u32, flow: BootFlow, spare: bool, world: World) -> Record {
    let mut record = Record {
        actions: Vec::new(),
        writable: false,
        syscalls: Vec::new(),
        requests: Vec::new(),
    };
    let (mut state, mut action) = Reboot::start(pid, flow, spare);
    for _ in 0..10 {
        record.actions.push(action);
        let succeeded = match action {
            Action::Remount { writable } => {
                let ok = if writable {
                    world.remount_writable
                } else {
                    world.remount_read_only
                };
                if ok {
                    record.writable = writable;
                }
                ok
            }
            Action::SaveEnvironment => {
                assert!(record.writable, "written while read-only");
                world.save
            }
            Action::Reboot { path, tryboot } => {
                match path {
                    RebootPath::Syscall => record.syscalls.push(tryboot),
                    RebootPath::InitSystem => record.requests.push(tryboot),
                }
                world.reboot
            }
            Action::Finish(_) => {
                assert!(state.is_finished());
                return record;
            }
        };
        assert!(!state.is_finished());
        action = state.advance(succeeded);
    }
    panic!("the operation does not end");
}

#[test]
fn init_process_is_process_one() {
    assert_eq!(INIT_PID, 1);
    assert!(is_init_process(1));
    assert!(!is_init_process(0));
    assert!(!is_init_process(2));
    assert!(!is_init_process(u32::MAX));
    assert_eq!(reboot_path(1), RebootPath::Syscall);
    assert_eq!(reboot_path(2), RebootPath::InitSystem);
    assert_eq!(reboot_path(4711), RebootPath::InitSystem);
}

#[test]
fn init_process_reboots_by_system_call() {
    for flow in [BootFlow::Tryboot, BootFlow::UBoot] {
        for spare in [false, true] {
            let record = carry_out(1, flow, spare, FINE);
            assert_eq!(record.syscalls.len(), 1);
            assert!(record.requests.is_empty());
        }
    }
}

#[test]
fn other_processes_ask_the_init_system() {
    for pid in [0, 2, 1000, u32::MAX] {
        for flow in [BootFlow::Tryboot, BootFlow::UBoot] {
            for spare in [false, true] {
                let record = carry_out(pid, flow, spare, FINE);
                assert_eq!(record.requests.len(), 1);
                assert!(record.syscalls.is_empty());
            }
        }
    }
}

#[test]
fn tryboot_carries_the_choice_in_the_reboot() {
    let record = carry_out(7, BootFlow::Tryboot, true, FINE);
    assert_eq!(
        record.actions,
        vec![
            Action::Reboot {
                path: RebootPath::InitSystem,
                tryboot: true
            },
            Action::Finish(Ok(())),
        ]
    );
    let record = carry_out(1, BootFlow::Tryboot, false, FINE);
    assert_eq!(
        record.actions,
        vec![
            Action::Reboot {
                path: RebootPath::Syscall,
                tryboot: false
            },
            Action::Finish(Ok(())),
        ]
    );
}

#[test]
fn uboot_writes_the_choice_and_reboots_plainly() {
    let record = carry_out(7, BootFlow::UBoot, true, FINE);
    assert_eq!(
        record.actions,
        vec![
            Action::Remount { writable: true },
            Action::SaveEnvironment,
            Action::Remount { writable: false },
            Action::Reboot {
                path: RebootPath::InitSystem,
                tryboot: false
            },
            Action::Finish(Ok(())),
        ]
    );
    assert!(!record.writable);
    let record = carry_out(7, BootFlow::UBoot, false, FINE);
    assert_eq!(
        record.actions,
        vec![
            Action::Reboot {
                path: RebootPath::InitSystem,
                tryboot: false
            },
            Action::Finish(Ok(())),
        ]
    );
}

#[test]
fn failed_save_still_ends_read_only() {
    let world = World { save: false, ..FINE };
    for pid in [1, 2] {
        let record = carry_out(pid, BootFlow::UBoot, true, world);
        assert_eq!(
            record.actions,
            vec![
                Action::Remount { writable: true },
                Action::SaveEnvironment,
                Action::Remount { writable: false },
                Action::Finish(Err(RebootError::SaveFailed)),
            ]
        );
        assert!(!record.writable);
        assert!(record.syscalls.is_empty() && record.requests.is_empty());
    }
}

#[test]
fn failed_remount_ends_without_a_write() {
    let world = World {
        remount_writable: false,
        ..FINE
    };
    let record = carry_out(2, BootFlow::UBoot, true, world);
    assert_eq!(
        record.actions,
        vec![
            Action::Remount { writable: true },
            Action::Finish(Err(RebootError::RemountFailed)),
        ]
    );
    assert!(!record.writable);
}

#[test]
fn failed_remount_to_read_only_is_not_escalated() {
    let world = World {
        remount_read_only: false,
        ..FINE
    };
    let record = carry_out(2, BootFlow::UBoot, true, world);
    assert_eq!(record.actions.last(), Some(&Action::Finish(Ok(()))));
    assert_eq!(record.requests, vec![false]);
    let world = World {
        remount_read_only: false,
        save: false,
        ..FINE
    };
    let record = carry_out(2, BootFlow::UBoot, true, world);
    assert_eq!(
        record.actions.last(),
        Some(&Action::Finish(Err(RebootError::SaveFailed)))
    );
}

#[test]
fn failed_reboot_is_reported() {
    let world = World {
        reboot: false,
        ..FINE
    };
    for flow in [BootFlow::Tryboot, BootFlow::UBoot] {
        for spare in [false, true] {
            let record = carry_out(3, flow, spare, world);
            assert_eq!(
                record.actions.last(),
                Some(&Action::Finish(Err(RebootError::RebootFailed)))
            );
            assert!(!record.writable);
        }
    }
}

#[test]
fn unsupported_boot_flow_is_an_error() {
    for spare in [false, true] {
        let record = carry_out(1, BootFlow::Unsupported, spare, FINE);
        assert_eq!(
            record.actions,
            vec![Action::Finish(Err(RebootError::UnsupportedBootFlow))]
        );
    }
}

#[test]
fn every_world_ends_read_only_if_remounting_works() {
    for bits in 0..16u32 {
        let world = World {
            remount_writable: bits & 1 != 0,
            save: bits & 2 != 0,
            remount_read_only: true,
            reboot: bits & 4 != 0,
        };
        for flow in [BootFlow::Tryboot, BootFlow::UBoot, BootFlow::Unsupported] {
            for spare in [false, true] {
                for pid in [1, 2] {
                    let record = carry_out(pid, flow, spare, world);
                    assert!(!record.writable);
                    assert!(matches!(record.actions.last(), Some(Action::Finish(_))));
                }
            }
        }
    }
}

#[test]
fn a_finished_operation_stays_finished() {
    let (mut state, action) = Reboot::start(1, BootFlow::Unsupported, true);
    assert_eq!(action, Action::Finish(Err(RebootError::UnsupportedBootFlow)));
    assert_eq!(
        state.stage,
        Stage::Finished(Err(RebootError::UnsupportedBootFlow))
    );
    for succeeded in [true, false] {
        assert_eq!(
            state.advance(succeeded),
            Action::Finish(Err(RebootError::UnsupportedBootFlow))
        );
        assert!(state.is_finished());
    }
}

#[test]
fn reboot_commands_are_composed() {
    assert_eq!(reboot_command(false), vec!["reboot"]);
    assert_eq!(reboot_command(true), vec!["reboot", "0 tryboot"]);
    let paths = Paths::system();
    assert_eq!(
        remount_command(&paths.config_mount, true),
        vec!["mount", "-o", "remount,rw", "/run/rugpi/mounts/config"]
    );
    assert_eq!(
        remount_command(&paths.config_mount, false),
        vec!["mount", "-o", "remount,ro", "/run/rugpi/mounts/config"]
    );
    assert_eq!(
        remount_command("/tmp/config", false),
        vec!["mount", "-o", "remount,ro", "/tmp/config"]
    );
    assert_eq!(paths.boot_spare_env, BOOT_SPARE_ENV);
    assert_eq!(paths.deferred_spare_reboot_flag, DEFERRED_SPARE_REBOOT_FLAG);
    assert_eq!(paths.tryboot_marker, "/run/rugpi/mounts/config/autoboot.txt");
    assert_eq!(
        paths.uboot_marker,
        "/run/rugpi/mounts/config/bootpart.default.env"
    );
    assert_eq!(CONFIG_MOUNT, "/run/rugpi/mounts/config");
    assert_eq!(BOOT_SPARE_ENV, "/run/rugpi/mounts/config/boot_spare.env");
    assert_eq!(
        DEFERRED_SPARE_REBOOT_FLAG,
        "/run/rugpi/mounts/data/.rugpi/deferred-reboot-spare"
    );
}

#[test]
fn reboot_request_follows_the_kernel_protocol() {
    let request = reboot_request(false);
    assert_eq!(request.magic1 as u32, 0xfee1dead);
    assert_eq!(request.magic2, 672274793);
    assert_eq!(request.cmd as u32, 0xa1b2c3d4);
    assert_eq!(request.arg, b"\0");
    let request = reboot_request(true);
    assert_eq!(request.magic1, -18751827);
    assert_eq!(request.magic2, 0x28121969);
    assert_eq!(request.cmd, -1582119980);
    assert_eq!(request.arg, b"0 tryboot\0");
}

#[test]
fn boot_spare_block_selects_the_spare_set() {
    let env = boot_spare_environment();
    assert_eq!(env.len(), 1);
    assert_eq!(env.get("boot_spare"), Some(&b"1"[..]));
    let block = boot_spare_block();
    assert_eq!(block.len(), 4096);
    assert_eq!(&block[..13], b"boot_spare=1\0");
    assert!(block[13..4092].iter().all(|byte| *byte == 0));
    let read = UBootEnv::decode(&block);
    assert_eq!(read.len(), 1);
    assert_eq!(read.get("boot_spare"), Some(&b"1"[..]));
}
