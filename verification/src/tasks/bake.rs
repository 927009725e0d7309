//! Creates an image: what is computed on the way.
//!
//! The image is made of an archive of system files. Here are the sizes,
//! the names and the command lines that the making needs; the commands are
//! run, and the files written, by the caller.

use crate::utils::ascii_numbers::{decimal_digits, lemma_decimal_digits, u64_to_ascii_decimal};
use crate::utils::text::{is_ascii_bytes, lemma_ascii_is_utf8, same_bytes, utf8_as_str};
use vstd::prelude::*;
use vstd::string::{StringExecFns, StringSliceAdditionalSpecFns};
use vstd::utf8::encode_utf8;

verus! {

/// What to bake: an archive of system files into an image.
#[derive(Debug)]
pub struct BakeTask {
    /// The archive with the system files.
    pub archive: String,
    /// The output image.
    pub image: String,
}

/// Size of a block of the image, in bytes.
pub const BLOCK_SIZE: u64 = 4096;

/// Room for the configuration partition and the two boot partitions.
pub const RESERVED_BYTES: u64 = (256 + 128 + 128) * 1024 * 1024;

/// Number of the configuration partition.
pub const CONFIG_PARTITION: usize = 1;

/// Number of the boot partition of the first set.
pub const BOOT_PARTITION: usize = 2;

/// Number of the system partition of the first set.
pub const SYSTEM_PARTITION: usize = 5;

/// Label of the configuration partition.
pub const CONFIG_LABEL: &'static str = "CONFIG";

/// Label of the boot partition of the first set.
pub const BOOT_LABEL: &'static str = "BOOT-A";

/// Label of the system partition of the first set.
pub const SYSTEM_LABEL: &'static str = "system-a";

/// The files of the configuration partition, as they are installed.
pub const CONFIG_FILES: &'static str = "/usr/share/rugpi/files/config";

/// The blocks that an archive of the given size and the reserved room
/// take: the bytes in whole blocks, and one block more.
pub open spec fn blocks_for(archive_bytes: int) -> int {
    (archive_bytes + RESERVED_BYTES) / (BLOCK_SIZE as int) + 1
}

/// Counts the blocks that an archive of the given size and the reserved
/// room take. There is no count if the sizes together exceed what a number
/// of 64 bits holds.
pub fn total_blocks(archive_bytes: u64) -> (blocks: Option<u64>)
    ensures
        match blocks {
            Some(count) => count == blocks_for(archive_bytes as int),
            None => archive_bytes + RESERVED_BYTES > u64::MAX,
        },
{
    match archive_bytes.checked_add(RESERVED_BYTES) {
        Some(total_bytes) => Some(total_bytes / BLOCK_SIZE + 1),
        None => None,
    }
}

/// The size in bytes of the given number of blocks. There is none if it
/// exceeds what a number of 64 bits holds.
pub fn blocks_to_bytes(blocks: u64) -> (bytes: Option<u64>)
    ensures
        match bytes {
            Some(size) => size == blocks * BLOCK_SIZE,
            None => blocks * BLOCK_SIZE > u64::MAX,
        },
{
    blocks.checked_mul(BLOCK_SIZE)
}

/// The command line that makes an image file of the given size:
/// `fallocate -l`, the size in bytes in decimal, and the image.
pub fn create_image_command(size: u64, image: &str) -> (argv: Vec<String>)
    ensures
        argv@.len() == 4,
        argv@[0]@ == "fallocate"@,
        argv@[1]@ == "-l"@,
        encode_utf8(argv@[2]@) == decimal_digits(size as nat),
        argv@[3]@ == image@,
{
    let digits = u64_to_ascii_decimal(size);
    proof {
        lemma_decimal_digits(size as nat);
        assert(is_ascii_bytes(digits@)) by {
            assert forall|i: int| 0 <= i < digits@.len() implies #[trigger] digits@[i] < 0x80 by {
                assert(digits@[i] <= 0x39);
            }
        }
        lemma_ascii_is_utf8(digits@);
    }
    let mut argv: Vec<String> = Vec::new();
    argv.push(String::from_str("fallocate"));
    argv.push(String::from_str("-l"));
    argv.push(utf8_as_str(digits.as_slice()).to_owned());
    argv.push(String::from_str(image));
    argv
}

/// The command line that extracts an archive into a directory.
pub open spec fn extract_argv(archive: Seq<char>, directory: Seq<char>) -> Seq<Seq<char>> {
    seq!["tar"@, "-x"@, "-f"@, archive, "-C"@, directory]
}

/// The command line that extracts an archive into a directory.
pub fn extract_command<'a>(archive: &'a str, directory: &'a str) -> (argv: Vec<&'a str>)
    ensures
        argv.deep_view() == extract_argv(archive@, directory@),
{
    let mut argv: Vec<&'a str> = Vec::new();
    argv.push("tar");
    argv.push("-x");
    argv.push("-f");
    argv.push(archive);
    argv.push("-C");
    argv.push(directory);
    assert(argv.deep_view() =~= extract_argv(archive@, directory@));
    argv
}

/// The command line that copies the files of the configuration partition
/// into a directory, with their attributes.
pub open spec fn copy_config_argv(directory: Seq<char>) -> Seq<Seq<char>> {
    seq!["cp"@, "-rTp"@, CONFIG_FILES@, directory]
}

/// The command line that copies the files of the configuration partition
/// into a directory.
pub fn copy_config_command<'a>(directory: &'a str) -> (argv: Vec<&'a str>)
    ensures
        argv.deep_view() == copy_config_argv(directory@),
{
    let mut argv: Vec<&'a str> = Vec::new();
    argv.push("cp");
    argv.push("-rTp");
    argv.push(CONFIG_FILES);
    argv.push(directory);
    assert(argv.deep_view() =~= copy_config_argv(directory@));
    argv
}

/// The name by which the kernel finds the system partition of the first
/// set on the disk with the given identifier.
pub open spec fn root_partuuid_of(disk_id: Seq<char>) -> Seq<char> {
    "PARTUUID="@ + disk_id + "-05"@
}

/// The name by which the kernel finds the system partition of the first
/// set on the disk with the given identifier.
pub fn root_partuuid(disk_id: &str) -> (root: String)
    ensures
        root@ == root_partuuid_of(disk_id@),
{
    let mut root = String::from_str("PARTUUID=");
    root.append(disk_id);
    root.append("-05");
    root
}

/// A firmware update to put on the configuration partition.
#[derive(Clone, Copy, Debug, PartialEq, Eq, Structural)]
pub enum Firmware {
    /// The update for the Raspberry Pi 4.
    Pi4,
    /// The update for the Raspberry Pi 5.
    Pi5,
}

/// The firmware update that `name` stands for: `none` for no update, `pi4`
/// and `pi5` for the two there are. Any other name stands for nothing.
pub open spec fn firmware_of(name: Seq<u8>) -> Option<Option<Firmware>> {
    if name == "none".spec_bytes() {
        Some(None)
    } else if name == "pi4".spec_bytes() {
        Some(Some(Firmware::Pi4))
    } else if name == "pi5".spec_bytes() {
        Some(Some(Firmware::Pi5))
    } else {
        None
    }
}

/// Reads the name of a firmware update, as a configuration gives it.
pub fn firmware_named(name: &str) -> (firmware: Option<Option<Firmware>>)
    ensures
        firmware == firmware_of(name.spec_bytes()),
{
    let name = name.as_bytes();
    if same_bytes(name, "none".as_bytes()) {
        Some(None)
    } else if same_bytes(name, "pi4".as_bytes()) {
        Some(Some(Firmware::Pi4))
    } else if same_bytes(name, "pi5".as_bytes()) {
        Some(Some(Firmware::Pi5))
    } else {
        None
    }
}

/// The bootloader image for the Raspberry Pi 4.
pub const PI4_EEPROM: &'static str =
    "/usr/share/rugpi/rpi-eeprom/firmware-2711/stable/pieeprom-2023-05-11.bin";

/// The firmware of the USB controller of the Raspberry Pi 4.
pub const PI4_VL805: &'static str =
    "/usr/share/rugpi/rpi-eeprom/firmware-2711/stable/vl805-000138c0.bin";

/// The recovery image for the Raspberry Pi 4.
pub const PI4_RECOVERY: &'static str =
    "/usr/share/rugpi/rpi-eeprom/firmware-2711/stable/recovery.bin";

/// The bootloader image for the Raspberry Pi 5.
pub const PI5_EEPROM: &'static str =
    "/usr/share/rugpi/rpi-eeprom/firmware-2712/stable/pieeprom-2023-10-30.bin";

/// The recovery image for the Raspberry Pi 5.
pub const PI5_RECOVERY: &'static str =
    "/usr/share/rugpi/rpi-eeprom/firmware-2712/stable/recovery.bin";

/// The tool that writes the digest of an image beside it.
pub const EEPROM_DIGEST: &'static str = "/usr/share/rugpi/rpi-eeprom/rpi-eeprom-digest";

/// The command line that copies `source` to `target`, over what is there.
pub open spec fn copy_argv(source: Seq<char>, target: Seq<char>) -> Seq<Seq<char>> {
    seq!["cp"@, "-f"@, source, target]
}

/// The command line that writes the digest of `image` to `signature`.
pub open spec fn digest_argv(image: Seq<char>, signature: Seq<char>) -> Seq<Seq<char>> {
    seq![EEPROM_DIGEST@, "-i"@, image, "-o"@, signature]
}

/// The command lines that put the update for the Raspberry Pi 4 in place:
/// the bootloader image and its digest, the firmware of the USB controller
/// and its digest, and the recovery image.
pub open spec fn pi4_firmware_argvs(
    eeprom: Seq<char>,
    eeprom_signature: Seq<char>,
    vl805: Seq<char>,
    vl805_signature: Seq<char>,
    recovery: Seq<char>,
) -> Seq<Seq<Seq<char>>> {
    seq![
        copy_argv(PI4_EEPROM@, eeprom),
        digest_argv(eeprom, eeprom_signature),
        copy_argv(PI4_VL805@, vl805),
        digest_argv(vl805, vl805_signature),
        copy_argv(PI4_RECOVERY@, recovery),
    ]
}

/// The command lines that put the update for the Raspberry Pi 5 in place:
/// the bootloader image and its digest, and the recovery image.
pub open spec fn pi5_firmware_argvs(
    eeprom: Seq<char>,
    eeprom_signature: Seq<char>,
    recovery: Seq<char>,
) -> Seq<Seq<Seq<char>>> {
    seq![
        copy_argv(PI5_EEPROM@, eeprom),
        digest_argv(eeprom, eeprom_signature),
        copy_argv(PI5_RECOVERY@, recovery),
    ]
}

/// The command line that copies `source` to `target`.
fn copy_command(source: &str, target: &str) -> (argv: Vec<String>)
    ensures
        argv.deep_view() == copy_argv(source@, target@),
{
    let mut argv: Vec<String> = Vec::new();
    argv.push(String::from_str("cp"));
    argv.push(String::from_str("-f"));
    argv.push(String::from_str(source));
    argv.push(String::from_str(target));
    assert(argv.deep_view() =~= copy_argv(source@, target@));
    argv
}

/// The command line that writes the digest of `image` to `signature`.
fn digest_command(image: &str, signature: &str) -> (argv: Vec<String>)
    ensures
        argv.deep_view() == digest_argv(image@, signature@),
{
    let mut argv: Vec<String> = Vec::new();
    argv.push(String::from_str(EEPROM_DIGEST));
    argv.push(String::from_str("-i"));
    argv.push(String::from_str(image));
    argv.push(String::from_str("-o"));
    argv.push(String::from_str(signature));
    assert(argv.deep_view() =~= digest_argv(image@, signature@));
    argv
}

/// The command lines that put the update for the Raspberry Pi 4 at the
/// given paths.
pub fn pi4_firmware_commands_at(
    eeprom: &str,
    eeprom_signature: &str,
    vl805: &str,
    vl805_signature: &str,
    recovery: &str,
) -> (commands: Vec<Vec<String>>)
    ensures
        commands.deep_view() == pi4_firmware_argvs(
            eeprom@,
            eeprom_signature@,
            vl805@,
            vl805_signature@,
            recovery@,
        ),
{
    let mut commands: Vec<Vec<String>> = Vec::new();
    commands.push(copy_command(PI4_EEPROM, eeprom));
    commands.push(digest_command(eeprom, eeprom_signature));
    commands.push(copy_command(PI4_VL805, vl805));
    commands.push(digest_command(vl805, vl805_signature));
    commands.push(copy_command(PI4_RECOVERY, recovery));
    assert(commands.deep_view() =~= pi4_firmware_argvs(
        eeprom@,
        eeprom_signature@,
        vl805@,
        vl805_signature@,
        recovery@,
    ));
    commands
}

/// The command lines that put the update for the Raspberry Pi 5 at the
/// given paths.
pub fn pi5_firmware_commands_at(eeprom: &str, eeprom_signature: &str, recovery: &str) -> (commands:
    Vec<Vec<String>>)
    ensures
        commands.deep_view() == pi5_firmware_argvs(eeprom@, eeprom_signature@, recovery@),
{
    let mut commands: Vec<Vec<String>> = Vec::new();
    commands.push(copy_command(PI5_EEPROM, eeprom));
    commands.push(digest_command(eeprom, eeprom_signature));
    commands.push(copy_command(PI5_RECOVERY, recovery));
    assert(commands.deep_view() =~= pi5_firmware_argvs(eeprom@, eeprom_signature@, recovery@));
    commands
}

/// The path that `camino::Utf8Path::join` makes of a directory and a name
/// below it, on the systems that this library is built for.
pub uninterp spec fn joined_path(directory: Seq<char>, name: Seq<char>) -> Seq<char>;

/// `camino::Utf8Path::join`: the path of `name` adjoined to `directory`.
/// Nothing is claimed of the path but that it is the one which that
/// function makes of these two.
#[verifier::external_body]
fn join_path(directory: &str, name: &str) -> (path: String)
    ensures
        path@ == joined_path(directory@, name@),
{
    camino::Utf8Path::new(directory).join(name).into_string()
}

/// The command lines that put the update for the Raspberry Pi 4 into the
/// directory `autoboot_path`.
pub fn pi4_firmware_commands(autoboot_path: &str) -> (commands: Vec<Vec<String>>)
    ensures
        commands.deep_view() == pi4_firmware_argvs(
            joined_path(autoboot_path@, "pieeprom.upd"@),
            joined_path(autoboot_path@, "pieeprom.sig"@),
            joined_path(autoboot_path@, "vl805.bin"@),
            joined_path(autoboot_path@, "vl805.sig"@),
            joined_path(autoboot_path@, "recovery.bin"@),
        ),
{
    let eeprom = join_path(autoboot_path, "pieeprom.upd");
    let eeprom_signature = join_path(autoboot_path, "pieeprom.sig");
    let vl805 = join_path(autoboot_path, "vl805.bin");
    let vl805_signature = join_path(autoboot_path, "vl805.sig");
    let recovery = join_path(autoboot_path, "recovery.bin");
    pi4_firmware_commands_at(
        eeprom.as_str(),
        eeprom_signature.as_str(),
        vl805.as_str(),
        vl805_signature.as_str(),
        recovery.as_str(),
    )
}

/// The command lines that put the update for the Raspberry Pi 5 into the
/// directory `autoboot_path`.
pub fn pi5_firmware_commands(autoboot_path: &str) -> (commands: Vec<Vec<String>>)
    ensures
        commands.deep_view() == pi5_firmware_argvs(
            joined_path(autoboot_path@, "pieeprom.upd"@),
            joined_path(autoboot_path@, "pieeprom.sig"@),
            joined_path(autoboot_path@, "recovery.bin"@),
        ),
{
    let eeprom = join_path(autoboot_path, "pieeprom.upd");
    let eeprom_signature = join_path(autoboot_path, "pieeprom.sig");
    let recovery = join_path(autoboot_path, "recovery.bin");
    pi5_firmware_commands_at(eeprom.as_str(), eeprom_signature.as_str(), recovery.as_str())
}

/// The command lines that put the chosen firmware update into the
/// directory `autoboot_path`: none where no update is chosen.
pub fn firmware_commands(firmware: Option<Firmware>, autoboot_path: &str) -> (commands: Vec<
    Vec<String>,
>)
    ensures
        commands.deep_view() == match firmware {
            None => Seq::<Seq<Seq<char>>>::empty(),
            Some(Firmware::Pi4) => pi4_firmware_argvs(
                joined_path(autoboot_path@, "pieeprom.upd"@),
                joined_path(autoboot_path@, "pieeprom.sig"@),
                joined_path(autoboot_path@, "vl805.bin"@),
                joined_path(autoboot_path@, "vl805.sig"@),
                joined_path(autoboot_path@, "recovery.bin"@),
            ),
            Some(Firmware::Pi5) => pi5_firmware_argvs(
                joined_path(autoboot_path@, "pieeprom.upd"@),
                joined_path(autoboot_path@, "pieeprom.sig"@),
                joined_path(autoboot_path@, "recovery.bin"@),
            ),
        },
{
    match firmware {
        None => {
            let commands: Vec<Vec<String>> = Vec::new();
            assert(commands.deep_view() =~= Seq::<Seq<Seq<char>>>::empty());
            commands
        },
        Some(Firmware::Pi4) => pi4_firmware_commands(autoboot_path),
        Some(Firmware::Pi5) => pi5_firmware_commands(autoboot_path),
    }
}

} // verus!
