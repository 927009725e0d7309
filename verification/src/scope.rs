//! Resources of the operating system that are held for a while: a loop
//! device bound to an image, a file system mounted at a path.
//!
//! What is acquired is written down, and it is released in the reverse
//! order: a file system mounted inside another is unmounted before the
//! other, and the loop device is detached after all that was mounted from
//! it. Each resource is handed out for release once and then forgotten.
//! The commands that acquire and release are composed here; they are run
//! by the caller.

use crate::utils::ascii_numbers::{decimal_digits, lemma_decimal_digits, usize_to_ascii_decimal};
use crate::utils::text::{is_ascii_bytes, lemma_ascii_is_utf8, utf8_as_str};
use vstd::prelude::*;
use vstd::string::StringSliceAdditionalSpecFns;
use vstd::utf8::{encode_utf8, encode_utf8_valid_utf8, valid_utf8_concat};

verus! {

/// A resource that is held.
#[derive(Debug, PartialEq, Eq)]
pub enum Resource {
    /// The loop device `device`, bound to an image.
    LoopDevice { device: String },
    /// The file system mounted at `target`.
    Mount { target: String },
}

/// The resources held, in the order in which they were acquired.
#[derive(Debug)]
pub struct Scope {
    held: Vec<Resource>,
}

impl View for Scope {
    type V = Seq<Resource>;

    /// The resources held, first the one that was acquired first.
    closed spec fn view(&self) -> Seq<Resource> {
        self.held@
    }
}

impl Scope {
    /// A scope that holds nothing.
    pub fn new() -> (scope: Scope)
        ensures
            scope@ == Seq::<Resource>::empty(),
    {
        Scope { held: Vec::new() }
    }

    /// The number of resources held.
    pub fn len(&self) -> (count: usize)
        ensures
            count == self@.len(),
    {
        self.held.len()
    }

    /// Takes note of a resource that was acquired. It is to be called once
    /// the resource is there, so that nothing is released that was never
    /// held.
    pub fn acquired(&mut self, resource: Resource)
        ensures
            final(self)@ == old(self)@.push(resource),
    {
        self.held.push(resource);
    }

    /// Hands out the resource to release next: the one acquired last of
    /// those still held. It is held no longer.
    pub fn release_next(&mut self) -> (resource: Option<Resource>)
        ensures
            match resource {
                Some(released) => old(self)@.len() > 0 && released == old(self)@.last()
                    && final(self)@ == old(self)@.drop_last(),
                None => old(self)@.len() == 0 && final(self)@ == old(self)@,
            },
    {
        self.held.pop()
    }

    /// Hands out all resources held, in the order in which to release them:
    /// the reverse of the order in which they were acquired.
    pub fn release_all(&mut self) -> (resources: Vec<Resource>)
        ensures
            resources@ == old(self)@.reverse(),
            final(self)@ == Seq::<Resource>::empty(),
    {
        let mut resources: Vec<Resource> = Vec::new();
        let ghost held = self@;
        loop
            invariant
                held == old(self)@,
                self@.len() + resources@.len() == held.len(),
                self@ == held.take(self@.len() as int),
                forall|i: int|
                    0 <= i < resources@.len() ==> resources@[i] == held[held.len() - 1 - i],
            decreases self@.len(),
        {
            match self.release_next() {
                Some(resource) => {
                    resources.push(resource);
                    assert(self@ =~= held.take(self@.len() as int));
                },
                None => {
                    assert(resources@ =~= held.reverse());
                    assert(self@ =~= Seq::<Resource>::empty());
                    return resources;
                },
            }
        }
    }
}

/// The command line that binds `image` to a free loop device, with a
/// device for each of its partitions, and prints the device's path.
pub open spec fn attach_argv(image: Seq<char>) -> Seq<Seq<char>> {
    seq!["losetup"@, "-f"@, "--show"@, "-P"@, image]
}

/// The command line that mounts `device` at `target`.
pub open spec fn mount_argv(device: Seq<char>, target: Seq<char>) -> Seq<Seq<char>> {
    seq!["mount"@, device, target]
}

/// The command line that releases `resource`.
pub open spec fn release_argv(resource: Resource) -> Seq<Seq<char>> {
    match resource {
        Resource::LoopDevice { device } => seq!["losetup"@, "-d"@, device@],
        Resource::Mount { target } => seq!["umount"@, target@],
    }
}

/// The command line that binds `image` to a free loop device.
pub fn attach_command<'a>(image: &'a str) -> (argv: Vec<&'a str>)
    ensures
        argv.deep_view() == attach_argv(image@),
{
    let mut argv: Vec<&'a str> = Vec::new();
    argv.push("losetup");
    argv.push("-f");
    argv.push("--show");
    argv.push("-P");
    argv.push(image);
    assert(argv.deep_view() =~= attach_argv(image@));
    argv
}

/// The command line that mounts `device` at `target`.
pub fn mount_command<'a>(device: &'a str, target: &'a str) -> (argv: Vec<&'a str>)
    ensures
        argv.deep_view() == mount_argv(device@, target@),
{
    let mut argv: Vec<&'a str> = Vec::new();
    argv.push("mount");
    argv.push(device);
    argv.push(target);
    assert(argv.deep_view() =~= mount_argv(device@, target@));
    argv
}

/// The command line that releases `resource`: it detaches the loop device
/// or unmounts the file system.
pub fn release_command<'a>(resource: &'a Resource) -> (argv: Vec<&'a str>)
    ensures
        argv.deep_view() == release_argv(*resource),
{
    let mut argv: Vec<&'a str> = Vec::new();
    match resource {
        Resource::LoopDevice { device } => {
            argv.push("losetup");
            argv.push("-d");
            argv.push(device.as_str());
        },
        Resource::Mount { target } => {
            argv.push("umount");
            argv.push(target.as_str());
        },
    }
    assert(argv.deep_view() =~= release_argv(*resource));
    argv
}

/// The path of the device of partition `index` of the loop device
/// `device`: the device's path, the letter `p`, and the index in decimal.
pub open spec fn partition_path_bytes(device: Seq<u8>, index: nat) -> Seq<u8> {
    device + seq![0x70u8] + decimal_digits(index)
}

/// The path of the device of partition `index` of the loop device `device`.
pub fn partition_path(device: &str, index: usize) -> (path: String)
    ensures
        encode_utf8(path@) == partition_path_bytes(device.spec_bytes(), index as nat),
{
    let mut bytes: Vec<u8> = Vec::new();
    bytes.extend_from_slice(device.as_bytes());
    bytes.push(0x70);
    let digits = usize_to_ascii_decimal(index);
    bytes.extend_from_slice(digits.as_slice());
    proof {
        let tail = seq![0x70u8] + digits@;
        lemma_decimal_digits(index as nat);
        assert(is_ascii_bytes(tail)) by {
            assert forall|i: int| 0 <= i < tail.len() implies #[trigger] tail[i] < 0x80 by {
                if i > 0 {
                    assert(tail[i] == digits@[i - 1]);
                }
            }
        }
        lemma_ascii_is_utf8(tail);
        encode_utf8_valid_utf8(device@);
        valid_utf8_concat(device.spec_bytes(), tail);
        assert(bytes@ =~= device.spec_bytes() + tail);
        assert(bytes@ =~= partition_path_bytes(device.spec_bytes(), index as nat));
    }
    utf8_as_str(bytes.as_slice()).to_owned()
}

} // verus!
