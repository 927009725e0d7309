//! Partition tables and the types of their entries.

use crate::disk::gpt::Guid;
use vstd::prelude::*;
use vstd::std_specs::cmp::PartialEqSpecImpl;

pub mod gpt;

verus! {

/// Type of a partition: a one-byte code in an MBR, a GUID in a GPT.
#[derive(Clone, Copy, Debug, Eq, Hash)]
pub enum PartitionType {
    /// Type code of an MBR partition entry.
    Mbr(u8),
    /// Type GUID of a GPT partition entry.
    Gpt(Guid),
}

impl PartialEq for PartitionType {
    fn eq(&self, other: &PartitionType) -> (equal: bool) {
        match (self, other) {
            (PartitionType::Mbr(a), PartitionType::Mbr(b)) => *a == *b,
            (PartitionType::Gpt(a), PartitionType::Gpt(b)) => *a == *b,
            _ => false,
        }
    }
}

impl PartialEqSpecImpl for PartitionType {
    open spec fn obeys_eq_spec() -> bool {
        true
    }

    open spec fn eq_spec(&self, other: &PartitionType) -> bool {
        match (*self, *other) {
            (PartitionType::Mbr(a), PartitionType::Mbr(b)) => a == b,
            (PartitionType::Gpt(a), PartitionType::Gpt(b)) => a@ == b@,
            _ => false,
        }
    }
}

impl PartitionType {
    /// Whether this is the type of an MBR partition entry.
    pub fn is_mbr(&self) -> (mbr: bool)
        ensures
            mbr == (self is Mbr),
    {
        match self {
            PartitionType::Mbr(_) => true,
            PartitionType::Gpt(_) => false,
        }
    }

    /// Whether this is the type of a GPT partition entry.
    pub fn is_gpt(&self) -> (gpt: bool)
        ensures
            gpt == (self is Gpt),
    {
        match self {
            PartitionType::Mbr(_) => false,
            PartitionType::Gpt(_) => true,
        }
    }
}

} // verus!
