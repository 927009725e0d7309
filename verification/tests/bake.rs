use rugpi_ctrl::tasks::bake::{
    blocks_to_bytes, copy_config_command, create_image_command, extract_command,
    firmware_commands, firmware_named, pi4_firmware_commands, pi4_firmware_commands_at,
    pi5_firmware_commands,
    pi5_firmware_commands_at, root_partuuid, total_blocks, Firmware, BLOCK_SIZE, BOOT_LABEL,
    BOOT_PARTITION, CONFIG_LABEL, CONFIG_PARTITION, RESERVED_BYTES, SYSTEM_LABEL,
    SYSTEM_PARTITION,
};

#[test]
fn blocks_are_counted_with_the_reserved_room() {
    assert_eq!(BLOCK_SIZE, 4096);
    assert_eq!(RESERVED_BYTES, 536870912);
    assert_eq!(total_blocks(0), Some(131073));
    assert_eq!(total_blocks(1), Some(131073));
    assert_eq!(total_blocks(4095), Some(131073));
    assert_eq!(total_blocks(4096), Some(131074));
    assert_eq!(total_blocks(1_000_000_000), Some(375213));
    assert_eq!(
        total_blocks(u64::MAX - RESERVED_BYTES),
        Some(u64::MAX / 4096 + 1)
    );
    assert_eq!(total_blocks(u64::MAX - RESERVED_BYTES + 1), None);
    assert_eq!(total_blocks(u64::MAX), None);
}

#[test]
fn blocks_have_their_size_in_bytes() {
    assert_eq!(blocks_to_bytes(0), Some(0));
    assert_eq!(blocks_to_bytes(1), Some(4096));
    assert_eq!(blocks_to_bytes(157287), Some(644247552));
    assert_eq!(blocks_to_bytes(u64::MAX / 4096), Some(u64::MAX - 4095));
    assert_eq!(blocks_to_bytes(u64::MAX / 4096 + 1), None);
}

#[test]
fn image_partitions_are_numbered_and_labelled() {
    assert_eq!((CONFIG_PARTITION, CONFIG_LABEL), (1, "CONFIG"));
    assert_eq!((BOOT_PARTITION, BOOT_LABEL), (2, "BOOT-A"));
    assert_eq!((SYSTEM_PARTITION, SYSTEM_LABEL), (5, "system-a"));
}

#[test]
fn image_commands_are_composed() {
    assert_eq!(
        create_image_command(644247552, "out/system.img"),
        vec!["fallocate", "-l", "644247552", "out/system.img"]
    );
    assert_eq!(
        create_image_command(0, "x"),
        vec!["fallocate", "-l", "0", "x"]
    );
    assert_eq!(
        extract_command("system.tar", "/tmp/rugpi.1"),
        vec!["tar", "-x", "-f", "system.tar", "-C", "/tmp/rugpi.1"]
    );
    assert_eq!(
        copy_config_command("/tmp/rugpi.1"),
        vec!["cp", "-rTp", "/usr/share/rugpi/files/config", "/tmp/rugpi.1"]
    );
    assert_eq!(root_partuuid("9e3c5a1b"), "PARTUUID=9e3c5a1b-05");
    assert_eq!(root_partuuid(""), "PARTUUID=-05");
}

#[test]
fn pi4_firmware_is_put_below_the_directory() {
    let expected: Vec<Vec<&str>> = vec![
        vec![
            "cp",
            "-f",
            "/usr/share/rugpi/rpi-eeprom/firmware-2711/stable/pieeprom-2023-05-11.bin",
            "/tmp/config/pieeprom.upd",
        ],
        vec![
            "/usr/share/rugpi/rpi-eeprom/rpi-eeprom-digest",
            "-i",
            "/tmp/config/pieeprom.upd",
            "-o",
            "/tmp/config/pieeprom.sig",
        ],
        vec![
            "cp",
            "-f",
            "/usr/share/rugpi/rpi-eeprom/firmware-2711/stable/vl805-000138c0.bin",
            "/tmp/config/vl805.bin",
        ],
        vec![
            "/usr/share/rugpi/rpi-eeprom/rpi-eeprom-digest",
            "-i",
            "/tmp/config/vl805.bin",
            "-o",
            "/tmp/config/vl805.sig",
        ],
        vec![
            "cp",
            "-f",
            "/usr/share/rugpi/rpi-eeprom/firmware-2711/stable/recovery.bin",
            "/tmp/config/recovery.bin",
        ],
    ];
    assert_eq!(pi4_firmware_commands("/tmp/config"), expected);
    assert_eq!(pi4_firmware_commands("/tmp/config/"), expected);
    assert_eq!(
        firmware_commands(Some(Firmware::Pi4), "/tmp/config"),
        expected
    );
    assert_eq!(
        pi4_firmware_commands_at(
            "/tmp/config/pieeprom.upd",
            "/tmp/config/pieeprom.sig",
            "/tmp/config/vl805.bin",
            "/tmp/config/vl805.sig",
            "/tmp/config/recovery.bin"
        ),
        expected
    );
}

#[test]
fn pi5_firmware_is_put_below_the_directory() {
    let expected: Vec<Vec<&str>> = vec![
        vec![
            "cp",
            "-f",
            "/usr/share/rugpi/rpi-eeprom/firmware-2712/stable/pieeprom-2023-10-30.bin",
            "boot/pieeprom.upd",
        ],
        vec![
            "/usr/share/rugpi/rpi-eeprom/rpi-eeprom-digest",
            "-i",
            "boot/pieeprom.upd",
            "-o",
            "boot/pieeprom.sig",
        ],
        vec![
            "cp",
            "-f",
            "/usr/share/rugpi/rpi-eeprom/firmware-2712/stable/recovery.bin",
            "boot/recovery.bin",
        ],
    ];
    assert_eq!(pi5_firmware_commands("boot"), expected);
    assert_eq!(firmware_commands(Some(Firmware::Pi5), "boot"), expected);
    assert_eq!(
        pi5_firmware_commands_at("boot/pieeprom.upd", "boot/pieeprom.sig", "boot/recovery.bin"),
        expected
    );
}

#[test]
fn no_firmware_means_no_commands() {
    assert!(firmware_commands(None, "/tmp/config").is_empty());
}

#[test]
fn firmware_is_named_in_the_configuration() {
    assert_eq!(firmware_named("none"), Some(None));
    assert_eq!(firmware_named("pi4"), Some(Some(Firmware::Pi4)));
    assert_eq!(firmware_named("pi5"), Some(Some(Firmware::Pi5)));
    for name in ["", "pi", "pi6", "Pi4", "pi4 ", "none\n", "nonee"] {
        assert_eq!(firmware_named(name), None);
    }
}
