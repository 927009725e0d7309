use rugpi_ctrl::scope::{
    attach_command, mount_command, partition_path, release_command, Resource, Scope,
};
use rugpi_ctrl::utils::ascii_numbers::usize_to_ascii_decimal;

fn mount(target: &str) -> Resource {
    Resource::Mount {
        target: target.to_owned(),
    }
}

fn loop_device(device: &str) -> Resource {
    Resource::LoopDevice {
        device: device.to_owned(),
    }
}

#[test]
fn resources_are_released_in_reverse_order() {
    let mut scope = Scope::new();
    assert_eq!(scope.len(), 0);
    scope.acquired(loop_device("/dev/loop3"));
    scope.acquired(mount("/tmp/root"));
    scope.acquired(mount("/tmp/root/boot"));
    assert_eq!(scope.len(), 3);
    assert_eq!(scope.release_next(), Some(mount("/tmp/root/boot")));
    assert_eq!(scope.release_next(), Some(mount("/tmp/root")));
    assert_eq!(scope.len(), 1);
    scope.acquired(mount("/tmp/config"));
    assert_eq!(scope.release_next(), Some(mount("/tmp/config")));
    assert_eq!(scope.release_next(), Some(loop_device("/dev/loop3")));
    assert_eq!(scope.release_next(), None);
    assert_eq!(scope.release_next(), None);
    assert_eq!(scope.len(), 0);
}

#[test]
fn everything_is_released_once() {
    let mut scope = Scope::new();
    scope.acquired(loop_device("/dev/loop0"));
    scope.acquired(mount("/a"));
    scope.acquired(mount("/a/b"));
    assert_eq!(
        scope.release_all(),
        vec![mount("/a/b"), mount("/a"), loop_device("/dev/loop0")]
    );
    assert_eq!(scope.len(), 0);
    assert_eq!(scope.release_all(), vec![]);
    assert_eq!(scope.release_next(), None);
}

#[test]
fn scope_commands_are_composed() {
    assert_eq!(
        attach_command("image.img"),
        vec!["losetup", "-f", "--show", "-P", "image.img"]
    );
    assert_eq!(
        mount_command("/dev/loop0p5", "/tmp/root"),
        vec!["mount", "/dev/loop0p5", "/tmp/root"]
    );
    assert_eq!(
        release_command(&mount("/tmp/root")),
        vec!["umount", "/tmp/root"]
    );
    assert_eq!(
        release_command(&loop_device("/dev/loop0")),
        vec!["losetup", "-d", "/dev/loop0"]
    );
}

#[test]
fn partitions_have_their_paths() {
    assert_eq!(partition_path("/dev/loop0", 1), "/dev/loop0p1");
    assert_eq!(partition_path("/dev/loop0", 5), "/dev/loop0p5");
    assert_eq!(partition_path("/dev/loop12", 10), "/dev/loop12p10");
    assert_eq!(partition_path("/dev/loop0", 0), "/dev/loop0p0");
    assert_eq!(partition_path("", 128), "p128");
    assert_eq!(partition_path("/dev/schl\u{fc}ssel", 7), "/dev/schl\u{fc}sselp7");
}

#[test]
fn numbers_are_rendered_in_decimal() {
    assert_eq!(usize_to_ascii_decimal(0), b"0");
    assert_eq!(usize_to_ascii_decimal(9), b"9");
    assert_eq!(usize_to_ascii_decimal(10), b"10");
    assert_eq!(usize_to_ascii_decimal(4096), b"4096");
    assert_eq!(usize_to_ascii_decimal(1234567890), b"1234567890");
    assert_eq!(
        usize_to_ascii_decimal(usize::MAX),
        usize::MAX.to_string().as_bytes()
    );
}
