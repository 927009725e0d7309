//! Rebooting the system, into the active partition set or once into the spare one.
//!
//! The operation is a sequence of steps on the outside world: remounting the
//! configuration partition, writing the bootloader's environment, asking for
//! the reboot. What to do next, given how the last step went, is decided
//! here; the steps themselves are carried out by the caller.
//!
//! The configuration partition is kept read-only. It is made writable only
//! for the one write and made read-only again right after it, whether the
//! write succeeded or not.
//!
//! Nothing here keeps two such operations from running at the same time on
//! one device: the configuration partition is not locked.

use crate::boot::uboot::{encoded, entries, entry, valid_name, valid_value, EnvError, UBootEnv};
use crate::boot::BootFlow;
use vstd::prelude::*;
use vstd::string::{is_ascii_spec_bytes, StringSliceAdditionalSpecFns};

verus! {

/// Process identifier of the init process.
pub const INIT_PID: u32 = 1;

/// Where the configuration partition is mounted.
pub const CONFIG_MOUNT: &'static str = "/run/rugpi/mounts/config";

/// The environment block that tells the bootloader to boot the spare set.
pub const BOOT_SPARE_ENV: &'static str = "/run/rugpi/mounts/config/boot_spare.env";

/// The flag that defers a reboot into the spare set.
pub const DEFERRED_SPARE_REBOOT_FLAG: &'static str =
    "/run/rugpi/mounts/data/.rugpi/deferred-reboot-spare";

/// The way on which a reboot is asked for.
#[derive(Clone, Copy, Debug, PartialEq, Eq, Structural)]
pub enum RebootPath {
    /// The system call itself: for the init process, which has no init
    /// system to ask.
    Syscall,
    /// A request to the init system, which shuts the services down in order.
    InitSystem,
}

/// Why the operation ended without a reboot.
#[derive(Clone, Copy, Debug, PartialEq, Eq, Structural)]
pub enum RebootError {
    /// No supported boot flow is in effect.
    UnsupportedBootFlow,
    /// The configuration partition could not be made writable.
    RemountFailed,
    /// The environment could not be written; the spare set is not selected.
    SaveFailed,
    /// The request for the reboot failed.
    RebootFailed,
}

/// A step for the caller to carry out.
#[derive(Clone, Copy, Debug, PartialEq, Eq)]
pub enum Action {
    /// Remount the configuration partition, writable or read-only.
    Remount { writable: bool },
    /// Write the environment that selects the spare set.
    SaveEnvironment,
    /// Ask for the reboot on the given path. With `tryboot` the firmware is
    /// asked to boot the spare set once.
    Reboot { path: RebootPath, tryboot: bool },
    /// Nothing is left to do: the operation ends with this result.
    Finish(Result<(), RebootError>),
}

/// How far the operation has come: the step that the caller is carrying out.
#[derive(Clone, Copy, Debug, PartialEq, Eq)]
pub enum Stage {
    /// The configuration partition is being made writable.
    Remounting,
    /// The environment is being written.
    Saving,
    /// The configuration partition is being made read-only again; `saved`
    /// tells whether the environment was written.
    Restoring { saved: bool },
    /// The reboot is being asked for.
    Rebooting,
    /// The operation has ended.
    Finished(Result<(), RebootError>),
}

/// The state of one reboot operation.
#[derive(Clone, Copy, Debug, PartialEq, Eq)]
pub struct Reboot {
    /// The path on which the reboot is asked for.
    pub path: RebootPath,
    /// The step in progress.
    pub stage: Stage,
}

/// Whether `pid` is the init process.
pub open spec fn is_init(pid: u32) -> bool {
    pid == INIT_PID
}

/// The path for a process with the given identifier: the system call for the
/// init process, the init system for every other.
pub open spec fn reboot_path_of(pid: u32) -> RebootPath {
    if is_init(pid) {
        RebootPath::Syscall
    } else {
        RebootPath::InitSystem
    }
}

/// The state and first step of a reboot that the process `pid` asks for,
/// into the spare set if `spare`, with boot flow `flow` in effect.
pub open spec fn started(pid: u32, flow: BootFlow, spare: bool) -> (Reboot, Action) {
    let path = reboot_path_of(pid);
    match flow {
        BootFlow::Tryboot => (
            Reboot { path, stage: Stage::Rebooting },
            Action::Reboot { path, tryboot: spare },
        ),
        BootFlow::UBoot => if spare {
            (Reboot { path, stage: Stage::Remounting }, Action::Remount { writable: true })
        } else {
            (Reboot { path, stage: Stage::Rebooting }, Action::Reboot { path, tryboot: false })
        },
        BootFlow::Unsupported => (
            Reboot {
                path,
                stage: Stage::Finished(Err(RebootError::UnsupportedBootFlow)),
            },
            Action::Finish(Err(RebootError::UnsupportedBootFlow)),
        ),
    }
}

/// The state and step that follow when the step in progress has ended,
/// with success or without.
pub open spec fn advanced(state: Reboot, succeeded: bool) -> (Reboot, Action) {
    let path = state.path;
    match state.stage {
        Stage::Remounting => if succeeded {
            (Reboot { path, stage: Stage::Saving }, Action::SaveEnvironment)
        } else {
            finished(path, Err(RebootError::RemountFailed))
        },
        Stage::Saving => (
            Reboot { path, stage: Stage::Restoring { saved: succeeded } },
            Action::Remount { writable: false },
        ),
        Stage::Restoring { saved } => if saved {
            (Reboot { path, stage: Stage::Rebooting }, Action::Reboot { path, tryboot: false })
        } else {
            finished(path, Err(RebootError::SaveFailed))
        },
        Stage::Rebooting => if succeeded {
            finished(path, Ok(()))
        } else {
            finished(path, Err(RebootError::RebootFailed))
        },
        Stage::Finished(result) => finished(path, result),
    }
}

/// The end of an operation with the given result.
pub open spec fn finished(path: RebootPath, result: Result<(), RebootError>) -> (Reboot, Action) {
    (Reboot { path, stage: Stage::Finished(result) }, Action::Finish(result))
}

/// How many steps a stage is from the end, at most.
pub open spec fn steps_left(stage: Stage) -> nat {
    match stage {
        Stage::Remounting => 4,
        Stage::Saving => 3,
        Stage::Restoring { .. } => 2,
        Stage::Rebooting => 1,
        Stage::Finished(_) => 0,
    }
}

/// Whether `pid` is the init process.
#[verifier::when_used_as_spec(is_init)]
pub fn is_init_process(pid: u32) -> (init: bool)
    ensures
        init == is_init(pid),
{
    pid == INIT_PID
}

/// Chooses the path on which the process `pid` asks for a reboot.
pub fn reboot_path(pid: u32) -> (path: RebootPath)
    ensures
        path == reboot_path_of(pid),
{
    if is_init_process(pid) {
        RebootPath::Syscall
    } else {
        RebootPath::InitSystem
    }
}

impl Reboot {
    /// Begins a reboot that the process `pid` asks for, into the spare set
    /// if `spare`, and gives the first step.
    pub fn start(pid: u32, flow: BootFlow, spare: bool) -> (begin: (Reboot, Action))
        ensures
            begin == started(pid, flow, spare),
    {
        let path = reboot_path(pid);
        match flow {
            BootFlow::Tryboot => (
                Reboot { path, stage: Stage::Rebooting },
                Action::Reboot { path, tryboot: spare },
            ),
            BootFlow::UBoot => {
                if spare {
                    (Reboot { path, stage: Stage::Remounting }, Action::Remount { writable: true })
                } else {
                    (
                        Reboot { path, stage: Stage::Rebooting },
                        Action::Reboot { path, tryboot: false },
                    )
                }
            },
            BootFlow::Unsupported => {
                let result = Err(RebootError::UnsupportedBootFlow);
                (Reboot { path, stage: Stage::Finished(result) }, Action::Finish(result))
            },
        }
    }

    /// Takes note of how the step in progress ended and gives the next one.
    ///
    /// How the remount to read-only ended makes no difference: it is done
    /// as well as it can be, and the operation goes on.
    pub fn advance(&mut self, succeeded: bool) -> (action: Action)
        ensures
            (*final(self), action) == advanced(*old(self), succeeded),
    {
        let path = self.path;
        let (stage, action) = match self.stage {
            Stage::Remounting => {
                if succeeded {
                    (Stage::Saving, Action::SaveEnvironment)
                } else {
                    let result = Err(RebootError::RemountFailed);
                    (Stage::Finished(result), Action::Finish(result))
                }
            },
            Stage::Saving => (
                Stage::Restoring { saved: succeeded },
                Action::Remount { writable: false },
            ),
            Stage::Restoring { saved } => {
                if saved {
                    (Stage::Rebooting, Action::Reboot { path, tryboot: false })
                } else {
                    let result = Err(RebootError::SaveFailed);
                    (Stage::Finished(result), Action::Finish(result))
                }
            },
            Stage::Rebooting => {
                let result = if succeeded {
                    Ok(())
                } else {
                    Err(RebootError::RebootFailed)
                };
                (Stage::Finished(result), Action::Finish(result))
            },
            Stage::Finished(result) => (Stage::Finished(result), Action::Finish(result)),
        };
        self.stage = stage;
        action
    }

    /// Whether the operation has ended.
    pub fn is_finished(&self) -> (done: bool)
        ensures
            done == (self.stage is Finished),
    {
        match self.stage {
            Stage::Finished(_) => true,
            _ => false,
        }
    }
}

/// How each step goes when it is carried out. No step is taken twice in one
/// operation, so one answer for each is enough.
pub struct World {
    /// Whether the configuration partition can be made writable.
    pub remount_writable: bool,
    /// Whether the environment can be written.
    pub save: bool,
    /// Whether the configuration partition can be made read-only.
    pub remount_read_only: bool,
    /// Whether the request for the reboot goes through.
    pub reboot: bool,
}

/// What an operation did and how it ended.
pub struct Run {
    /// The steps, in the order in which they were given, the end included.
    pub actions: Seq<Action>,
    /// Whether the configuration partition is writable at the end.
    pub writable: bool,
    /// The result of the operation.
    pub result: Result<(), RebootError>,
}

/// Whether `action` succeeds in `world`.
pub open spec fn succeeds(world: World, action: Action) -> bool {
    match action {
        Action::Remount { writable } => if writable {
            world.remount_writable
        } else {
            world.remount_read_only
        },
        Action::SaveEnvironment => world.save,
        Action::Reboot { .. } => world.reboot,
        Action::Finish(_) => true,
    }
}

/// Whether the configuration partition is writable after `action`, given
/// whether it was before: a remount that succeeds decides it, nothing else
/// changes it.
pub open spec fn writable_after(action: Action, succeeded: bool, writable: bool) -> bool {
    match action {
        Action::Remount { writable: asked } => if succeeded {
            asked
        } else {
            writable
        },
        _ => writable,
    }
}

/// The rest of an operation in `world`, from the state `state` with the
/// step `action` in progress.
pub open spec fn run_from(state: Reboot, action: Action, world: World, writable: bool) -> Run
    decreases steps_left(state.stage),
{
    if state.stage is Finished || action is Finish {
        Run {
            actions: seq![action],
            writable,
            result: match action {
                Action::Finish(result) => result,
                _ => Ok(()),
            },
        }
    } else {
        let succeeded = succeeds(world, action);
        let (next_state, next_action) = advanced(state, succeeded);
        let rest = run_from(
            next_state,
            next_action,
            world,
            writable_after(action, succeeded, writable),
        );
        Run { actions: seq![action] + rest.actions, writable: rest.writable, result: rest.result }
    }
}

/// The whole operation in `world`, with the configuration partition
/// read-only at the beginning.
pub open spec fn run(pid: u32, flow: BootFlow, spare: bool, world: World) -> Run {
    let (state, action) = started(pid, flow, spare);
    run_from(state, action, world, false)
}

/// Every step brings the operation nearer to its end, and the path on which
/// the reboot is asked for never changes.
pub proof fn lemma_advance_progress(state: Reboot, succeeded: bool)
    ensures
        advanced(state, succeeded).0.path == state.path,
        !(state.stage is Finished) ==> steps_left(advanced(state, succeeded).0.stage) < steps_left(
            state.stage,
        ),
        advanced(state, succeeded).1 is Finish <==> advanced(state, succeeded).0.stage is Finished,
{
}

/// While the environment is being written the configuration partition is
/// writable, and the step after the write makes it read-only again, however
/// the write went.
pub proof fn lemma_remount_follows_save(state: Reboot, succeeded: bool)
    requires
        state.stage is Saving,
    ensures
        advanced(state, succeeded).1 == (Action::Remount { writable: false }),
{
}

/// What an operation does, case by case.
pub proof fn lemma_run(pid: u32, flow: BootFlow, spare: bool, world: World)
    ensures
        ({
            let path = reboot_path_of(pid);
            let reboot_result = if world.reboot {
                Ok::<(), RebootError>(())
            } else {
                Err::<(), RebootError>(RebootError::RebootFailed)
            };
            let run = run(pid, flow, spare, world);
            match flow {
                BootFlow::Unsupported => {
                    &&& run.result == Err::<(), RebootError>(RebootError::UnsupportedBootFlow)
                    &&& run.actions == seq![Action::Finish(run.result)]
                },
                BootFlow::Tryboot => {
                    &&& run.result == reboot_result
                    &&& run.actions == seq![
                        Action::Reboot { path, tryboot: spare },
                        Action::Finish(run.result),
                    ]
                },
                BootFlow::UBoot => if !spare {
                    &&& run.result == reboot_result
                    &&& run.actions == seq![
                        Action::Reboot { path, tryboot: false },
                        Action::Finish(run.result),
                    ]
                } else if !world.remount_writable {
                    &&& run.result == Err::<(), RebootError>(RebootError::RemountFailed)
                    &&& run.actions == seq![
                        Action::Remount { writable: true },
                        Action::Finish(run.result),
                    ]
                } else if !world.save {
                    &&& run.result == Err::<(), RebootError>(RebootError::SaveFailed)
                    &&& run.actions == seq![
                        Action::Remount { writable: true },
                        Action::SaveEnvironment,
                        Action::Remount { writable: false },
                        Action::Finish(run.result),
                    ]
                } else {
                    &&& run.result == reboot_result
                    &&& run.actions == seq![
                        Action::Remount { writable: true },
                        Action::SaveEnvironment,
                        Action::Remount { writable: false },
                        Action::Reboot { path, tryboot: false },
                        Action::Finish(run.result),
                    ]
                },
            }
        }),
{
    reveal_with_fuel(run_from, 6);
    let run = run(pid, flow, spare, world);
    match flow {
        BootFlow::Unsupported => {
            assert(run.actions =~= seq![Action::Finish(run.result)]);
        },
        BootFlow::Tryboot => {
            assert(run.actions =~= seq![
                Action::Reboot { path: reboot_path_of(pid), tryboot: spare },
                Action::Finish(run.result),
            ]);
        },
        BootFlow::UBoot => {
            if !spare {
                assert(run.actions =~= seq![
                    Action::Reboot { path: reboot_path_of(pid), tryboot: false },
                    Action::Finish(run.result),
                ]);
            } else if !world.remount_writable {
                assert(run.actions =~= seq![
                    Action::Remount { writable: true },
                    Action::Finish(run.result),
                ]);
            } else if !world.save {
                assert(run.actions =~= seq![
                    Action::Remount { writable: true },
                    Action::SaveEnvironment,
                    Action::Remount { writable: false },
                    Action::Finish(run.result),
                ]);
            } else {
                assert(run.actions =~= seq![
                    Action::Remount { writable: true },
                    Action::SaveEnvironment,
                    Action::Remount { writable: false },
                    Action::Reboot { path: reboot_path_of(pid), tryboot: false },
                    Action::Finish(run.result),
                ]);
            }
        },
    }
}

/// The configuration partition is read-only when the operation ends,
/// whatever failed on the way, as long as remounting it read-only works.
pub proof fn lemma_config_ends_read_only(pid: u32, flow: BootFlow, spare: bool, world: World)
    requires
        world.remount_read_only,
    ensures
        !run(pid, flow, spare, world).writable,
{
    reveal_with_fuel(run_from, 6);
}

/// If the environment cannot be written, the operation ends with that
/// error, no reboot is asked for, and the configuration partition was
/// remounted read-only after the failed write.
pub proof fn lemma_failed_save(pid: u32, world: World)
    requires
        world.remount_writable,
        !world.save,
    ensures
        run(pid, BootFlow::UBoot, true, world).result == Err::<(), RebootError>(
            RebootError::SaveFailed,
        ),
        run(pid, BootFlow::UBoot, true, world).actions == seq![
            Action::Remount { writable: true },
            Action::SaveEnvironment,
            Action::Remount { writable: false },
            Action::Finish(Err(RebootError::SaveFailed)),
        ],
        world.remount_read_only ==> !run(pid, BootFlow::UBoot, true, world).writable,
{
    lemma_run(pid, BootFlow::UBoot, true, world);
    if world.remount_read_only {
        lemma_config_ends_read_only(pid, BootFlow::UBoot, true, world);
    }
}

/// A reboot is asked for with the system call if and only if the process is
/// the init process; every other process asks the init system.
pub proof fn lemma_privilege_routing(
    pid: u32,
    flow: BootFlow,
    spare: bool,
    world: World,
    step: int,
)
    requires
        0 <= step < run(pid, flow, spare, world).actions.len(),
        run(pid, flow, spare, world).actions[step] is Reboot,
    ensures
        run(pid, flow, spare, world).actions[step] matches Action::Reboot { path, .. } && (path
            == RebootPath::Syscall <==> pid == INIT_PID) && (path == RebootPath::InitSystem <==> pid
            != INIT_PID),
{
    lemma_run(pid, flow, spare, world);
}

/// The spare set is booted only where it was asked for: the firmware is
/// asked for it only under its own boot flow, and the environment is
/// written only under the bootloader's.
pub proof fn lemma_spare_only_on_request(
    pid: u32,
    flow: BootFlow,
    world: World,
    step: int,
)
    requires
        0 <= step < run(pid, flow, false, world).actions.len(),
    ensures
        run(pid, flow, false, world).actions[step] != Action::SaveEnvironment,
        run(pid, flow, false, world).actions[step] matches Action::Reboot { tryboot, .. }
            ==> !tryboot,
{
    lemma_run(pid, flow, false, world);
}

/// The command line that asks the init system for a reboot, with the
/// firmware's one-shot argument if the spare set is to be booted.
pub open spec fn reboot_argv(tryboot: bool) -> Seq<Seq<char>> {
    if tryboot {
        seq!["reboot"@, "0 tryboot"@]
    } else {
        seq!["reboot"@]
    }
}

/// The command line that remounts the file system mounted at `mount`,
/// writable or read-only.
pub open spec fn remount_argv(mount: Seq<char>, writable: bool) -> Seq<Seq<char>> {
    seq![
        "mount"@,
        "-o"@,
        if writable {
            "remount,rw"@
        } else {
            "remount,ro"@
        },
        mount,
    ]
}

/// The command line that asks the init system for a reboot.
pub fn reboot_command(tryboot: bool) -> (argv: Vec<&'static str>)
    ensures
        argv.deep_view() == reboot_argv(tryboot),
{
    let mut argv: Vec<&'static str> = Vec::new();
    argv.push("reboot");
    if tryboot {
        argv.push("0 tryboot");
    }
    assert(argv.deep_view() =~= reboot_argv(tryboot));
    argv
}

/// The command line that remounts the configuration partition, mounted at
/// `config_mount`, writable or read-only.
pub fn remount_command<'a>(config_mount: &'a str, writable: bool) -> (argv: Vec<&'a str>)
    ensures
        argv.deep_view() == remount_argv(config_mount@, writable),
{
    let mut argv: Vec<&'a str> = Vec::new();
    argv.push("mount");
    argv.push("-o");
    if writable {
        argv.push("remount,rw");
    } else {
        argv.push("remount,ro");
    }
    argv.push(config_mount);
    assert(argv.deep_view() =~= remount_argv(config_mount@, writable));
    argv
}

/// What the kernel is handed when it is asked to restart the system with
/// an argument: two magic numbers, the command, and the argument as a
/// string that ends with a zero byte.
#[derive(Debug, PartialEq, Eq)]
pub struct RebootRequest {
    /// The first magic number, `0xfee1dead`.
    pub magic1: i32,
    /// The second magic number, `672274793`.
    pub magic2: i32,
    /// The command "restart with an argument", `0xa1b2c3d4`.
    pub cmd: i32,
    /// The argument: `0 tryboot` to boot the spare set once, else empty;
    /// with the zero byte that ends it.
    pub arg: Vec<u8>,
}

/// The argument of the restart: the firmware's one-shot request or nothing,
/// and the zero byte that ends it.
pub open spec fn reboot_arg(tryboot: bool) -> Seq<u8> {
    if tryboot {
        "0 tryboot".spec_bytes().push(0)
    } else {
        seq![0u8]
    }
}

/// The request that restarts the system, into the spare set if `tryboot`.
pub fn reboot_request(tryboot: bool) -> (request: RebootRequest)
    ensures
        request.magic1 == 0xfee1dead - 0x1_0000_0000,
        request.magic2 == 672274793,
        request.cmd == 0xa1b2c3d4 - 0x1_0000_0000,
        request.arg@ == reboot_arg(tryboot),
{
    let mut arg: Vec<u8> = Vec::new();
    if tryboot {
        arg.extend_from_slice("0 tryboot".as_bytes());
    }
    arg.push(0);
    assert(arg@ =~= reboot_arg(tryboot));
    RebootRequest {
        magic1: linux_reboot_magic1(),
        magic2: linux_reboot_magic2(),
        cmd: linux_reboot_cmd_restart2(),
        arg,
    }
}

/// `libc::LINUX_REBOOT_MAGIC1`, the first of the two numbers by which the
/// kernel recognises a reboot request: `0xfee1dead`, read as a signed
/// number of 32 bits.
#[verifier::external_body]
fn linux_reboot_magic1() -> (magic: i32)
    ensures
        magic == 0xfee1dead - 0x1_0000_0000,
{
    nix::libc::LINUX_REBOOT_MAGIC1
}

/// `libc::LINUX_REBOOT_MAGIC2`, the second of the two numbers: `672274793`.
#[verifier::external_body]
fn linux_reboot_magic2() -> (magic: i32)
    ensures
        magic == 672274793,
{
    nix::libc::LINUX_REBOOT_MAGIC2
}

/// `libc::LINUX_REBOOT_CMD_RESTART2`, the command that restarts the system
/// with an argument: `0xa1b2c3d4`, read as a signed number of 32 bits.
#[verifier::external_body]
fn linux_reboot_cmd_restart2() -> (cmd: i32)
    ensures
        cmd == 0xa1b2c3d4 - 0x1_0000_0000,
{
    nix::libc::LINUX_REBOOT_CMD_RESTART2
}

/// The variables that tell the bootloader to boot the spare set: the one
/// variable `boot_spare`, set to `1`.
pub open spec fn boot_spare_variables() -> Seq<(Seq<u8>, Seq<u8>)> {
    seq![("boot_spare".spec_bytes(), "1".spec_bytes())]
}

/// The name and the value of the variable are what they read as, and they
/// can be written.
pub proof fn lemma_boot_spare_variables()
    ensures
        "boot_spare".spec_bytes() == seq![
            0x62u8,
            0x6f,
            0x6f,
            0x74,
            0x5f,
            0x73,
            0x70,
            0x61,
            0x72,
            0x65,
        ],
        "1".spec_bytes() == seq![0x31u8],
        encoded(boot_spare_variables()) is Ok,
{
    reveal_strlit("boot_spare");
    reveal_strlit("1");
    is_ascii_spec_bytes("boot_spare");
    is_ascii_spec_bytes("1");
    let name = "boot_spare".spec_bytes();
    let value = "1".spec_bytes();
    assert(name =~= seq![0x62u8, 0x6f, 0x6f, 0x74, 0x5f, 0x73, 0x70, 0x61, 0x72, 0x65]);
    assert(value =~= seq![0x31u8]);
    assert(valid_name(name));
    assert(valid_value(value));
    let vars = boot_spare_variables();
    assert(vars.drop_last() =~= Seq::empty());
    assert(entries(vars.drop_last()) =~= Seq::empty());
    assert(entries(vars) =~= entry(name, value));
    assert(entries(vars).len() == 13);
}

/// The environment that tells the bootloader to boot the spare set.
pub fn boot_spare_environment() -> (env: UBootEnv)
    ensures
        env@ == boot_spare_variables(),
{
    let mut env = UBootEnv::new();
    env.set("boot_spare", "1");
    assert(env@ =~= boot_spare_variables());
    env
}

/// The block to write so that the bootloader boots the spare set.
pub fn boot_spare_block() -> (block: Vec<u8>)
    ensures
        encoded(boot_spare_variables()) == Ok::<Seq<u8>, EnvError>(block@),
{
    proof {
        lemma_boot_spare_variables();
    }
    match boot_spare_environment().encode() {
        Ok(block) => block,
        Err(_) => {
            assert(false);
            Vec::new()
        },
    }
}

} // verus!
