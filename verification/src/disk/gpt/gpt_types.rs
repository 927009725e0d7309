//! GPT partition types.

use crate::disk::gpt::{
    guid_text, lemma_parse_rendered, lemma_text_by_layout, parse_guid, Guid, InvalidGuid,
    DIGIT_POSITIONS,
};
use crate::utils::ascii_numbers::{hex_digit, Case};
use crate::disk::PartitionType;
use vstd::prelude::*;
use vstd::string::{is_ascii_spec_bytes, StringSliceAdditionalSpecFns};

verus! {

/// Bytes of the GUID `C12A7328-F81F-11D2-BA4B-00A0C93EC93B`.
pub const EFI_GUID: [u8; 16] = [
    0x28, 0x73, 0x2a, 0xc1, 0x1f, 0xf8, 0xd2, 0x11, 0xba, 0x4b, 0x00, 0xa0, 0xc9, 0x3e, 0xc9, 0x3b,
];

/// Bytes of the GUID `0FC63DAF-8483-4772-8E79-3D69D8477DE4`.
pub const LINUX_GUID: [u8; 16] = [
    0xaf, 0x3d, 0xc6, 0x0f, 0x83, 0x84, 0x72, 0x47, 0x8e, 0x79, 0x3d, 0x69, 0xd8, 0x47, 0x7d, 0xe4,
];

/// EFI GPT partition type.
pub fn efi() -> (partition_type: PartitionType)
    ensures
        partition_type matches PartitionType::Gpt(guid) && guid@ == EFI_GUID@,
{
    PartitionType::Gpt(Guid::from_bytes(EFI_GUID))
}

/// Linux GPT partition type.
pub fn linux() -> (partition_type: PartitionType)
    ensures
        partition_type matches PartitionType::Gpt(guid) && guid@ == LINUX_GUID@,
{
    PartitionType::Gpt(Guid::from_bytes(LINUX_GUID))
}

/// The EFI type is the GUID that reads `C12A7328-F81F-11D2-BA4B-00A0C93EC93B`.
pub proof fn lemma_efi_text()
    ensures
        guid_text(EFI_GUID@, Case::Upper) == "C12A7328-F81F-11D2-BA4B-00A0C93EC93B".spec_bytes(),
        parse_guid("C12A7328-F81F-11D2-BA4B-00A0C93EC93B".spec_bytes()) == Ok::<
            Seq<u8>,
            InvalidGuid,
        >(EFI_GUID@),
{
    reveal_strlit("C12A7328-F81F-11D2-BA4B-00A0C93EC93B");
    is_ascii_spec_bytes("C12A7328-F81F-11D2-BA4B-00A0C93EC93B");
    let text = "C12A7328-F81F-11D2-BA4B-00A0C93EC93B".spec_bytes();
    assert forall|idx: int| 0 <= idx < 16 implies {
        &&& text[#[trigger] DIGIT_POSITIONS[idx] as int] == hex_digit(
            EFI_GUID@[idx] / 16,
            Case::Upper,
        )
        &&& text[DIGIT_POSITIONS[idx] + 1] == hex_digit(EFI_GUID@[idx] % 16, Case::Upper)
    } by {
    }
    lemma_text_by_layout(EFI_GUID@, Case::Upper, text);
    lemma_parse_rendered(EFI_GUID@, Case::Upper);
}

/// The Linux type is the GUID that reads `0FC63DAF-8483-4772-8E79-3D69D8477DE4`.
pub proof fn lemma_linux_text()
    ensures
        guid_text(LINUX_GUID@, Case::Upper) == "0FC63DAF-8483-4772-8E79-3D69D8477DE4".spec_bytes(),
        parse_guid("0FC63DAF-8483-4772-8E79-3D69D8477DE4".spec_bytes()) == Ok::<
            Seq<u8>,
            InvalidGuid,
        >(LINUX_GUID@),
{
    reveal_strlit("0FC63DAF-8483-4772-8E79-3D69D8477DE4");
    is_ascii_spec_bytes("0FC63DAF-8483-4772-8E79-3D69D8477DE4");
    let text = "0FC63DAF-8483-4772-8E79-3D69D8477DE4".spec_bytes();
    assert forall|idx: int| 0 <= idx < 16 implies {
        &&& text[#[trigger] DIGIT_POSITIONS[idx] as int] == hex_digit(
            LINUX_GUID@[idx] / 16,
            Case::Upper,
        )
        &&& text[DIGIT_POSITIONS[idx] + 1] == hex_digit(LINUX_GUID@[idx] % 16, Case::Upper)
    } by {
    }
    lemma_text_by_layout(LINUX_GUID@, Case::Upper, text);
    lemma_parse_rendered(LINUX_GUID@, Case::Upper);
}

} // verus!
