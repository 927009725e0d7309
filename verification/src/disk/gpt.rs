//! GUIDs as the UEFI standard defines them, and their textual form.
//!
//! A GUID is 16 bytes. Its text is 36 ASCII characters: five fields of
//! hexadecimal digits, of 8, 4, 4, 4 and 12 digits, with a hyphen between
//! them. The first three fields render their bytes in reverse order (they are
//! little-endian numbers), the last two render them in order.

use crate::utils::ascii_numbers::{
    byte_to_ascii_hex, hex_digit, hex_pair, hex_pair_value, is_hex_digit,
    lemma_hex_value_any_case, lemma_pair_read_then_render, lemma_pair_render_then_read,
    lemma_render_then_read, parse_ascii_hex_byte, Case,
};
use vstd::prelude::*;
use vstd::std_specs::cmp::PartialEqSpecImpl;
use vstd::string::StringSliceAdditionalSpecFns;
use crate::utils::text::{is_ascii_bytes, lemma_ascii_is_utf8, utf8_as_str};
use vstd::utf8::encode_utf8;

pub mod gpt_types;

verus! {

/// Length of the GUID string encoding.
pub const GUID_STRING_LENGTH: usize = 36;

/// The ASCII hyphen that separates the fields.
pub const SEPARATOR: u8 = 0x2d;

/// Where the four separators stand in the text.
pub const SEPARATOR_POSITIONS: [usize; 4] = [8, 13, 18, 23];

/// For each of the 16 bytes, where the first of its two digits stands in the text.
pub const DIGIT_POSITIONS: [usize; 16] = [
    6, 4, 2, 0, 11, 9, 16, 14, 19, 21, 24, 26, 28, 30, 32, 34,
];

/// The digits of `bytes`, two for each byte, in the order of the bytes.
pub open spec fn hex_field(bytes: Seq<u8>, case: Case) -> Seq<u8> {
    Seq::new(
        2 * bytes.len(),
        |i: int|
            if i % 2 == 0 {
                hex_digit(bytes[i / 2] / 16, case)
            } else {
                hex_digit(bytes[i / 2] % 16, case)
            },
    )
}

/// The text of the GUID with the given 16 bytes.
#[verifier::opaque]
pub open spec fn guid_text(bytes: Seq<u8>, case: Case) -> Seq<u8> {
    hex_field(bytes.subrange(0, 4).reverse(), case) + seq![SEPARATOR] + hex_field(
        bytes.subrange(4, 6).reverse(),
        case,
    ) + seq![SEPARATOR] + hex_field(bytes.subrange(6, 8).reverse(), case) + seq![SEPARATOR]
        + hex_field(bytes.subrange(8, 10), case) + seq![SEPARATOR] + hex_field(
        bytes.subrange(10, 16),
        case,
    )
}

/// The bytes that a field of digits stands for, in the order of the digits.
pub open spec fn field_bytes(digits: Seq<u8>) -> Seq<u8> {
    Seq::new(
        digits.len() / 2,
        |i: int| hex_pair_value(digits[2 * i], digits[2 * i + 1], None).unwrap(),
    )
}

/// The 16 bytes of the GUID that a valid text stands for.
#[verifier::opaque]
pub open spec fn guid_bytes(text: Seq<u8>) -> Seq<u8> {
    field_bytes(text.subrange(0, 8)).reverse() + field_bytes(text.subrange(9, 13)).reverse()
        + field_bytes(text.subrange(14, 18)).reverse() + field_bytes(text.subrange(19, 23))
        + field_bytes(text.subrange(24, 36))
}

/// Whether a separator stands at `pos`.
pub open spec fn is_separator_position(pos: int) -> bool {
    pos == 8 || pos == 13 || pos == 18 || pos == 23
}

/// Whether the byte at `pos` is what the format wants there: a hyphen at a
/// separator position, elsewhere a hexadecimal digit that `case` admits.
pub open spec fn valid_at(text: Seq<u8>, pos: int, case: Option<Case>) -> bool {
    if is_separator_position(pos) {
        text[pos] == SEPARATOR
    } else {
        is_hex_digit(text[pos], case)
    }
}

/// Whether `text` is the text of a GUID, with letters as `case` admits them.
pub open spec fn is_guid_text(text: Seq<u8>, case: Option<Case>) -> bool {
    &&& text.len() == 36
    &&& forall|pos: int| 0 <= pos < 36 ==> #[trigger] valid_at(text, pos, case)
}

/// The order in which the positions of a text are examined: the separators
/// first, then for each byte in turn its two digits.
pub open spec fn scan_order() -> Seq<int> {
    Seq::new(
        36,
        |rank: int|
            if rank < 4 {
                SEPARATOR_POSITIONS[rank] as int
            } else if rank % 2 == 0 {
                DIGIT_POSITIONS[(rank - 4) / 2] as int
            } else {
                DIGIT_POSITIONS[(rank - 5) / 2] + 1
            },
    )
}

/// Whether the position examined as number `rank` is the first invalid one.
pub open spec fn is_first_fault(text: Seq<u8>, rank: int) -> bool {
    &&& 0 <= rank < 36
    &&& !valid_at(text, scan_order()[rank], None)
    &&& forall|earlier: int|
        0 <= earlier < rank ==> valid_at(text, #[trigger] scan_order()[earlier], None)
}

/// What reading `text` as a GUID gives: the bytes, or why it is no GUID.
///
/// A text of the wrong length is refused with that length. Otherwise the
/// first invalid position, in the order of examination, is reported.
pub open spec fn parse_guid(text: Seq<u8>) -> Result<Seq<u8>, InvalidGuid> {
    if text.len() != 36 {
        Err(InvalidGuid::InvalidLength { length: text.len() as usize })
    } else if is_guid_text(text, None) {
        Ok(guid_bytes(text))
    } else {
        Err(
            InvalidGuid::InvalidByte {
                pos: scan_order()[choose|rank: int| is_first_fault(text, rank)] as usize,
            },
        )
    }
}

/// Error indicating an invalid GUID string representation.
#[derive(Debug, Clone, Copy, PartialEq, Eq, Structural)]
pub enum InvalidGuid {
    /// Invalid length.
    InvalidLength { length: usize },
    /// Invalid byte.
    InvalidByte { pos: usize },
}

/// Where the text of a GUID holds what: its length, its separators, and the
/// two digits of the byte `idx`.
pub proof fn lemma_guid_text_layout(bytes: Seq<u8>, case: Case, idx: int)
    requires
        bytes.len() == 16,
        0 <= idx < 16,
    ensures
        guid_text(bytes, case).len() == 36,
        guid_text(bytes, case)[8] == SEPARATOR,
        guid_text(bytes, case)[13] == SEPARATOR,
        guid_text(bytes, case)[18] == SEPARATOR,
        guid_text(bytes, case)[23] == SEPARATOR,
        guid_text(bytes, case)[DIGIT_POSITIONS[idx] as int] == hex_digit(bytes[idx] / 16, case),
        guid_text(bytes, case)[DIGIT_POSITIONS[idx] + 1] == hex_digit(bytes[idx] % 16, case),
{
    reveal(guid_text);
    let text = guid_text(bytes, case);
    let f0 = hex_field(bytes.subrange(0, 4).reverse(), case);
    let f1 = hex_field(bytes.subrange(4, 6).reverse(), case);
    let f2 = hex_field(bytes.subrange(6, 8).reverse(), case);
    let f3 = hex_field(bytes.subrange(8, 10), case);
    let f4 = hex_field(bytes.subrange(10, 16), case);
    assert(f0.len() == 8 && f1.len() == 4 && f2.len() == 4 && f3.len() == 4 && f4.len() == 12);
    assert(text.len() == 36);
    let pos = DIGIT_POSITIONS[idx] as int;
    if pos < 8 {
        assert(text[pos] == f0[pos] && text[pos + 1] == f0[pos + 1]);
    } else if pos < 13 {
        assert(text[pos] == f1[pos - 9] && text[pos + 1] == f1[pos - 8]);
    } else if pos < 18 {
        assert(text[pos] == f2[pos - 14] && text[pos + 1] == f2[pos - 13]);
    } else if pos < 23 {
        assert(text[pos] == f3[pos - 19] && text[pos + 1] == f3[pos - 18]);
    } else {
        assert(text[pos] == f4[pos - 24] && text[pos + 1] == f4[pos - 23]);
    }
}

/// Which two digits of a text the byte `idx` of the GUID is read from.
pub proof fn lemma_guid_bytes_layout(text: Seq<u8>, idx: int)
    requires
        text.len() == 36,
        0 <= idx < 16,
    ensures
        guid_bytes(text).len() == 16,
        guid_bytes(text)[idx] == hex_pair_value(
            text[DIGIT_POSITIONS[idx] as int],
            text[DIGIT_POSITIONS[idx] + 1],
            None,
        ).unwrap(),
{
    reveal(guid_bytes);
    let bytes = guid_bytes(text);
    let f0 = field_bytes(text.subrange(0, 8)).reverse();
    let f1 = field_bytes(text.subrange(9, 13)).reverse();
    let f2 = field_bytes(text.subrange(14, 18)).reverse();
    let f3 = field_bytes(text.subrange(19, 23));
    let f4 = field_bytes(text.subrange(24, 36));
    assert(f0.len() == 4 && f1.len() == 2 && f2.len() == 2 && f3.len() == 2 && f4.len() == 6);
    assert(bytes.len() == 16);
    if idx < 4 {
        assert(bytes[idx] == f0[idx]);
    } else if idx < 6 {
        assert(bytes[idx] == f1[idx - 4]);
    } else if idx < 8 {
        assert(bytes[idx] == f2[idx - 6]);
    } else if idx < 10 {
        assert(bytes[idx] == f3[idx - 8]);
    } else {
        assert(bytes[idx] == f4[idx - 10]);
    }
}

/// Every position of a text is examined: each is a separator position or
/// holds one of the two digits of some byte.
pub proof fn lemma_positions_covered(pos: int) -> (idx: int)
    requires
        0 <= pos < 36,
        !is_separator_position(pos),
    ensures
        0 <= idx < 16,
        pos == DIGIT_POSITIONS[idx] || pos == DIGIT_POSITIONS[idx] + 1,
{
    let idx: int = if pos < 8 {
        3 - pos / 2
    } else if pos < 13 {
        5 - (pos - 9) / 2
    } else if pos < 18 {
        7 - (pos - 14) / 2
    } else if pos < 23 {
        8 + (pos - 19) / 2
    } else {
        10 + (pos - 24) / 2
    };
    idx
}

/// The digits of each byte stand inside the text, at no separator position,
/// and apart from the digits of every other byte.
pub proof fn lemma_digit_positions_apart(i: int, j: int)
    requires
        0 <= i < 16,
        0 <= j < 16,
    ensures
        0 <= DIGIT_POSITIONS[i] < 35,
        !is_separator_position(DIGIT_POSITIONS[i] as int),
        !is_separator_position(DIGIT_POSITIONS[i] + 1),
        i != j ==> DIGIT_POSITIONS[i] != DIGIT_POSITIONS[j] && DIGIT_POSITIONS[i]
            != DIGIT_POSITIONS[j] + 1 && DIGIT_POSITIONS[i] + 1 != DIGIT_POSITIONS[j],
{
}

/// The positions in the order of examination, one by one.
pub proof fn lemma_scan_order(rank: int)
    requires
        0 <= rank < 36,
    ensures
        0 <= scan_order()[rank] < 36,
        rank < 4 ==> scan_order()[rank] == SEPARATOR_POSITIONS[rank] && is_separator_position(
            scan_order()[rank],
        ),
        rank >= 4 && rank % 2 == 0 ==> scan_order()[rank] == DIGIT_POSITIONS[(rank - 4) / 2]
            && !is_separator_position(scan_order()[rank]),
        rank >= 4 && rank % 2 == 1 ==> scan_order()[rank] == DIGIT_POSITIONS[(rank - 5) / 2] + 1
            && !is_separator_position(scan_order()[rank]),
{
    if rank >= 4 {
        let idx = if rank % 2 == 0 {
            (rank - 4) / 2
        } else {
            (rank - 5) / 2
        };
        assert(0 <= DIGIT_POSITIONS[idx] < 35);
        assert(!is_separator_position(DIGIT_POSITIONS[idx] as int));
        assert(!is_separator_position(DIGIT_POSITIONS[idx] + 1));
    } else {
        assert(is_separator_position(SEPARATOR_POSITIONS[rank] as int));
    }
}

/// A text is that of a GUID if every position examined is valid.
pub proof fn lemma_scan_valid_is_guid_text(text: Seq<u8>, case: Option<Case>)
    requires
        text.len() == 36,
        forall|rank: int| 0 <= rank < 36 ==> valid_at(text, #[trigger] scan_order()[rank], case),
    ensures
        is_guid_text(text, case),
{
    assert forall|pos: int| 0 <= pos < 36 implies #[trigger] valid_at(text, pos, case) by {
        let rank = if pos == 8 {
            0
        } else if pos == 13 {
            1
        } else if pos == 18 {
            2
        } else if pos == 23 {
            3
        } else {
            let idx = lemma_positions_covered(pos);
            if pos == DIGIT_POSITIONS[idx] {
                4 + 2 * idx
            } else {
                5 + 2 * idx
            }
        };
        lemma_scan_order(rank);
        assert(scan_order()[rank] == pos);
    }
}

/// A text has at most one first fault.
pub proof fn lemma_first_fault_unique(text: Seq<u8>, rank: int)
    requires
        is_first_fault(text, rank),
    ensures
        (choose|r: int| is_first_fault(text, r)) == rank,
{
    let chosen = choose|r: int| is_first_fault(text, r);
    assert(is_first_fault(text, chosen));
    if chosen < rank {
        assert(valid_at(text, scan_order()[chosen], None));
    } else if rank < chosen {
        assert(valid_at(text, scan_order()[rank], None));
    }
}

/// A text with a first fault is refused, with the position of that fault.
pub proof fn lemma_first_fault_refused(text: Seq<u8>, rank: int)
    requires
        text.len() == 36,
        is_first_fault(text, rank),
    ensures
        parse_guid(text) == Err::<Seq<u8>, InvalidGuid>(
            InvalidGuid::InvalidByte { pos: scan_order()[rank] as usize },
        ),
{
    lemma_first_fault_unique(text, rank);
    lemma_scan_order(rank);
    assert(!valid_at(text, scan_order()[rank], None));
}

/// A text whose length is not 36 is refused with its length.
pub proof fn lemma_wrong_length_refused(text: Seq<u8>)
    requires
        text.len() != 36,
    ensures
        parse_guid(text) == Err::<Seq<u8>, InvalidGuid>(
            InvalidGuid::InvalidLength { length: text.len() as usize },
        ),
{
}

/// A text of 36 bytes that lacks a hyphen at a separator position is refused
/// with the first such position.
pub proof fn lemma_missing_separator_refused(text: Seq<u8>, k: int)
    requires
        text.len() == 36,
        0 <= k < 4,
        text[SEPARATOR_POSITIONS[k] as int] != SEPARATOR,
        forall|j: int| 0 <= j < k ==> text[#[trigger] SEPARATOR_POSITIONS[j] as int] == SEPARATOR,
    ensures
        parse_guid(text) == Err::<Seq<u8>, InvalidGuid>(
            InvalidGuid::InvalidByte { pos: SEPARATOR_POSITIONS[k] },
        ),
{
    lemma_scan_order(k);
    assert forall|earlier: int| 0 <= earlier < k implies valid_at(
        text,
        #[trigger] scan_order()[earlier],
        None,
    ) by {
        lemma_scan_order(earlier);
        assert(text[SEPARATOR_POSITIONS[earlier] as int] == SEPARATOR);
    }
    lemma_first_fault_refused(text, k);
}

/// The text of a GUID is valid, for a reader of either case and for one that
/// fixes the case it was rendered in.
pub proof fn lemma_rendered_is_guid_text(bytes: Seq<u8>, case: Case)
    requires
        bytes.len() == 16,
    ensures
        is_guid_text(guid_text(bytes, case), Some(case)),
        is_guid_text(guid_text(bytes, case), None),
{
    let text = guid_text(bytes, case);
    lemma_guid_text_layout(bytes, case, 0);
    assert forall|pos: int| 0 <= pos < 36 implies #[trigger] valid_at(text, pos, Some(case))
        && valid_at(text, pos, None) by {
        if !is_separator_position(pos) {
            let idx = lemma_positions_covered(pos);
            lemma_guid_text_layout(bytes, case, idx);
            lemma_render_then_read(bytes[idx] / 16, case);
            lemma_render_then_read(bytes[idx] % 16, case);
        }
    }
    assert forall|pos: int| 0 <= pos < 36 implies #[trigger] valid_at(text, pos, None) by {
        assert(valid_at(text, pos, Some(case)));
    }
}

/// The bytes that the text of a GUID stands for are those of the GUID.
pub proof fn lemma_rendered_bytes(bytes: Seq<u8>, case: Case)
    requires
        bytes.len() == 16,
    ensures
        guid_bytes(guid_text(bytes, case)) == bytes,
{
    let text = guid_text(bytes, case);
    lemma_guid_text_layout(bytes, case, 0);
    lemma_guid_bytes_layout(text, 0);
    assert forall|idx: int| 0 <= idx < 16 implies guid_bytes(text)[idx] == bytes[idx] by {
        lemma_guid_text_layout(bytes, case, idx);
        lemma_guid_bytes_layout(text, idx);
        lemma_pair_render_then_read(bytes[idx], case);
    }
    assert(guid_bytes(text) =~= bytes);
}

/// A text that holds the separators and, for each byte, its two digits at
/// their places is the text of the GUID.
pub proof fn lemma_text_by_layout(bytes: Seq<u8>, case: Case, text: Seq<u8>)
    requires
        bytes.len() == 16,
        text.len() == 36,
        text[8] == SEPARATOR,
        text[13] == SEPARATOR,
        text[18] == SEPARATOR,
        text[23] == SEPARATOR,
        forall|idx: int|
            0 <= idx < 16 ==> {
                &&& text[#[trigger] DIGIT_POSITIONS[idx] as int] == hex_digit(bytes[idx] / 16, case)
                &&& text[DIGIT_POSITIONS[idx] + 1] == hex_digit(bytes[idx] % 16, case)
            },
    ensures
        guid_text(bytes, case) == text,
{
    let rendered = guid_text(bytes, case);
    lemma_guid_text_layout(bytes, case, 0);
    assert forall|pos: int| 0 <= pos < 36 implies rendered[pos] == text[pos] by {
        if !is_separator_position(pos) {
            let idx = lemma_positions_covered(pos);
            lemma_guid_text_layout(bytes, case, idx);
            assert(text[DIGIT_POSITIONS[idx] as int] == hex_digit(bytes[idx] / 16, case));
        }
    }
    assert(rendered =~= text);
}

/// Reading the text of a GUID gives back its bytes, in whichever case it was
/// rendered.
pub proof fn lemma_parse_rendered(bytes: Seq<u8>, case: Case)
    requires
        bytes.len() == 16,
    ensures
        parse_guid(guid_text(bytes, case)) == Ok::<Seq<u8>, InvalidGuid>(bytes),
{
    lemma_rendered_is_guid_text(bytes, case);
    lemma_rendered_bytes(bytes, case);
}

/// A text that is valid for a reader that fixes a case is valid for one that
/// reads both.
pub proof fn lemma_guid_text_any_case(text: Seq<u8>, case: Case)
    requires
        is_guid_text(text, Some(case)),
    ensures
        is_guid_text(text, None),
{
    assert forall|pos: int| 0 <= pos < 36 implies #[trigger] valid_at(text, pos, None) by {
        assert(valid_at(text, pos, Some(case)));
        if !is_separator_position(pos) {
            lemma_hex_value_any_case(text[pos], case);
        }
    }
}

/// Rendering the GUID that a text stands for gives back the text, provided
/// the letters of the text are all of the case that is rendered.
pub proof fn lemma_render_parsed(text: Seq<u8>, case: Case)
    requires
        is_guid_text(text, Some(case)),
    ensures
        parse_guid(text) == Ok::<Seq<u8>, InvalidGuid>(guid_bytes(text)),
        guid_text(guid_bytes(text), case) == text,
{
    let bytes = guid_bytes(text);
    lemma_guid_text_any_case(text, case);
    lemma_guid_bytes_layout(text, 0);
    lemma_guid_text_layout(bytes, case, 0);
    let rendered = guid_text(bytes, case);
    assert forall|pos: int| 0 <= pos < 36 implies rendered[pos] == text[pos] by {
        assert(valid_at(text, pos, Some(case)));
        if !is_separator_position(pos) {
            let idx = lemma_positions_covered(pos);
            let first = DIGIT_POSITIONS[idx] as int;
            let high = text[first];
            let low = text[first + 1];
            assert(valid_at(text, first, Some(case)));
            assert(valid_at(text, first + 1, Some(case)));
            lemma_guid_bytes_layout(text, idx);
            lemma_guid_text_layout(bytes, case, idx);
            lemma_hex_value_any_case(high, case);
            lemma_hex_value_any_case(low, case);
            lemma_pair_read_then_render(high, low, case);
            let pair = hex_pair(bytes[idx], case);
            assert(pair[0] == high && pair[1] == low);
        }
    }
    assert(rendered =~= text);
}

/// GUID as defined in Appendix A of the UEFI standard.
#[derive(Clone, Copy, Debug, Eq, Hash)]
pub struct Guid {
    bytes: [u8; 16],
}

impl View for Guid {
    type V = Seq<u8>;

    /// The 16 bytes, as they lie in a partition table.
    closed spec fn view(&self) -> Seq<u8> {
        self.bytes@
    }
}

impl PartialEq for Guid {
    fn eq(&self, other: &Guid) -> (equal: bool) {
        let mut i: usize = 0;
        while i < 16
            invariant
                i <= 16,
                forall|j: int| 0 <= j < i ==> self.bytes@[j] == other.bytes@[j],
            decreases 16 - i,
        {
            if self.bytes[i] != other.bytes[i] {
                return false;
            }
            i += 1;
        }
        assert(self.bytes@ =~= other.bytes@);
        true
    }
}

impl PartialEqSpecImpl for Guid {
    open spec fn obeys_eq_spec() -> bool {
        true
    }

    open spec fn eq_spec(&self, other: &Guid) -> bool {
        self@ == other@
    }
}

impl Guid {
    /// A GUID has 16 bytes.
    pub broadcast proof fn lemma_len(&self)
        ensures
            #[trigger] self@.len() == 16,
    {
    }

    /// Whether all 16 bytes are zero, as in an entry that has no type.
    pub fn is_zero(&self) -> (zero: bool)
        ensures
            zero <==> forall|i: int| 0 <= i < 16 ==> self@[i] == 0,
    {
        let mut i: usize = 0;
        while i < 16
            invariant
                i <= 16,
                forall|j: int| 0 <= j < i ==> self.bytes@[j] == 0,
            decreases 16 - i,
        {
            if self.bytes[i] != 0 {
                assert(self@[i as int] != 0);
                return false;
            }
            i += 1;
        }
        true
    }

    /// Create a GUID from random bytes, as RFC 4122 has it in section 4.4.
    ///
    /// Byte 7 gets the version: its upper half becomes 4 and its lower half
    /// is filled, so that the byte is `0x4f` whatever it was. Byte 8 gets the
    /// variant: its two upper bits become `10`, the other six stay. All other
    /// bytes stay.
    pub fn from_random_bytes(bytes: [u8; 16]) -> (guid: Guid)
        ensures
            guid@ == bytes@.update(7, 0x4f).update(8, (bytes[8] % 64 + 128) as u8),
            guid@[7] / 16 == 4,
            guid@[8] / 64 == 2,
    {
        let mut bytes = bytes;
        let ghost given = bytes@;
        let seventh = bytes[7];
        let eighth = bytes[8];
        let version = (seventh & 0b0000_1111) | 0b0100_1111;
        let variant = (eighth & 0b1011_1111) | 0b1000_0000;
        assert(version == 0x4f) by (bit_vector)
            requires
                version == (seventh & 0b0000_1111) | 0b0100_1111,
        ;
        assert(variant == eighth % 64 + 128) by (bit_vector)
            requires
                variant == (eighth & 0b1011_1111) | 0b1000_0000,
        ;
        bytes[7] = version;
        bytes[8] = variant;
        assert(bytes@ =~= given.update(7, 0x4f).update(8, (given[8] % 64 + 128) as u8));
        Guid { bytes }
    }

    /// Create a GUID from the given bytes.
    pub fn from_bytes(bytes: [u8; 16]) -> (guid: Guid)
        ensures
            guid@ == bytes@,
    {
        Guid { bytes }
    }

    /// The 16 bytes of the GUID.
    pub fn to_bytes(&self) -> (bytes: [u8; 16])
        ensures
            bytes@ == self@,
    {
        self.bytes
    }

    /// Create a GUID from the standard string encoding.
    ///
    /// The text must be 36 bytes long, with hyphens at the positions 8, 13,
    /// 18 and 23 and hexadecimal digits of either case elsewhere. A text of
    /// another length is refused with its length; otherwise the first invalid
    /// position is reported, the separators being examined first and then
    /// the digits of each byte of the GUID in turn.
    pub fn from_hex_str(hex_str: &str) -> (result: Result<Guid, InvalidGuid>)
        ensures
            match result {
                Ok(guid) => parse_guid(hex_str.spec_bytes()) == Ok::<Seq<u8>, InvalidGuid>(guid@),
                Err(error) => parse_guid(hex_str.spec_bytes()) == Err::<Seq<u8>, InvalidGuid>(
                    error,
                ),
            },
    {
        let hex_bytes = hex_str.as_bytes();
        let ghost text = hex_bytes@;
        if hex_bytes.len() != GUID_STRING_LENGTH {
            return Err(InvalidGuid::InvalidLength { length: hex_bytes.len() });
        }
        let mut k: usize = 0;
        while k < 4
            invariant
                k <= 4,
                text == hex_bytes@,
                text == hex_str.spec_bytes(),
                text.len() == 36,
                forall|rank: int|
                    0 <= rank < k ==> valid_at(text, #[trigger] scan_order()[rank], None),
            decreases 4 - k,
        {
            let pos = SEPARATOR_POSITIONS[k];
            proof {
                lemma_scan_order(k as int);
            }
            if hex_bytes[pos] != SEPARATOR {
                proof {
                    assert(is_first_fault(text, k as int));
                    lemma_first_fault_refused(text, k as int);
                }
                return Err(InvalidGuid::InvalidByte { pos });
            }
            k += 1;
        }
        let mut bytes = [0u8; 16];
        let mut idx: usize = 0;
        while idx < 16
            invariant
                idx <= 16,
                text == hex_bytes@,
                text == hex_str.spec_bytes(),
                text.len() == 36,
                forall|rank: int|
                    0 <= rank < 4 + 2 * idx ==> valid_at(text, #[trigger] scan_order()[rank], None),
                forall|i: int|
                    0 <= i < idx ==> bytes@[i] == hex_pair_value(
                        text[DIGIT_POSITIONS[i] as int],
                        text[DIGIT_POSITIONS[i] + 1],
                        None,
                    ).unwrap(),
            decreases 16 - idx,
        {
            let pos = DIGIT_POSITIONS[idx];
            let hex = [hex_bytes[pos], hex_bytes[pos + 1]];
            proof {
                lemma_scan_order(4 + 2 * idx);
                lemma_scan_order(5 + 2 * idx);
            }
            match parse_ascii_hex_byte(hex, pos, None) {
                Ok(byte) => {
                    bytes[idx] = byte;
                },
                Err(error) => {
                    proof {
                        let rank: int = if is_hex_digit(hex[0], None) {
                            5 + 2 * idx
                        } else {
                            4 + 2 * idx
                        };
                        assert(is_first_fault(text, rank));
                        lemma_first_fault_refused(text, rank);
                    }
                    return Err(InvalidGuid::InvalidByte { pos: error.position() });
                },
            }
            idx += 1;
        }
        proof {
            lemma_scan_valid_is_guid_text(text, None);
            lemma_guid_bytes_layout(text, 0);
            assert forall|i: int| 0 <= i < 16 implies bytes@[i] == guid_bytes(text)[i] by {
                lemma_guid_bytes_layout(text, i);
            }
            assert(bytes@ =~= guid_bytes(text));
        }
        Ok(Guid::from_bytes(bytes))
    }

    /// Convert the GUID to the standard string encoding, with the letters
    /// among its digits in the given case. Reading the text gives back the
    /// GUID.
    pub fn to_hex_str(&self, case: Case) -> (text: GuidString)
        ensures
            text@ == guid_text(self@, case),
            parse_guid(text@) == Ok::<Seq<u8>, InvalidGuid>(self@),
    {
        let mut hex_bytes = [0u8; 36];
        let mut k: usize = 0;
        while k < 4
            invariant
                k <= 4,
                forall|j: int|
                    0 <= j < k ==> hex_bytes@[SEPARATOR_POSITIONS[j] as int] == SEPARATOR,
            decreases 4 - k,
        {
            hex_bytes[SEPARATOR_POSITIONS[k]] = SEPARATOR;
            k += 1;
        }
        let mut idx: usize = 0;
        while idx < 16
            invariant
                idx <= 16,
                forall|j: int|
                    0 <= j < 4 ==> hex_bytes@[SEPARATOR_POSITIONS[j] as int] == SEPARATOR,
                forall|i: int|
                    0 <= i < idx ==> {
                        &&& hex_bytes@[DIGIT_POSITIONS[i] as int] == hex_digit(
                            self.bytes@[i] / 16,
                            case,
                        )
                        &&& hex_bytes@[DIGIT_POSITIONS[i] + 1] == hex_digit(
                            self.bytes@[i] % 16,
                            case,
                        )
                    },
            decreases 16 - idx,
        {
            let hex = byte_to_ascii_hex(self.bytes[idx], case);
            let pos = DIGIT_POSITIONS[idx];
            let ghost before = hex_bytes@;
            hex_bytes[pos] = hex[0];
            hex_bytes[pos + 1] = hex[1];
            proof {
                lemma_digit_positions_apart(idx as int, idx as int);
                assert(hex_bytes@ == before.update(pos as int, hex@[0]).update(pos + 1, hex@[1]));
                assert forall|j: int| 0 <= j < 4 implies hex_bytes@[SEPARATOR_POSITIONS[j] as int]
                    == SEPARATOR by {
                    assert(is_separator_position(SEPARATOR_POSITIONS[j] as int));
                    assert(before[SEPARATOR_POSITIONS[j] as int] == SEPARATOR);
                }
                assert forall|i: int| 0 <= i < idx implies {
                    &&& hex_bytes@[DIGIT_POSITIONS[i] as int] == before[DIGIT_POSITIONS[i] as int]
                    &&& hex_bytes@[DIGIT_POSITIONS[i] + 1] == before[DIGIT_POSITIONS[i] + 1]
                } by {
                    lemma_digit_positions_apart(i, idx as int);
                }
            }
            idx += 1;
        }
        proof {
            let rendered = guid_text(self@, case);
            lemma_guid_text_layout(self@, case, 0);
            assert forall|pos: int| 0 <= pos < 36 implies hex_bytes@[pos] == rendered[pos] by {
                if is_separator_position(pos) {
                    assert(hex_bytes@[SEPARATOR_POSITIONS[0] as int] == SEPARATOR);
                    assert(hex_bytes@[SEPARATOR_POSITIONS[1] as int] == SEPARATOR);
                    assert(hex_bytes@[SEPARATOR_POSITIONS[2] as int] == SEPARATOR);
                    assert(hex_bytes@[SEPARATOR_POSITIONS[3] as int] == SEPARATOR);
                } else {
                    let i = lemma_positions_covered(pos);
                    lemma_guid_text_layout(self@, case, i);
                }
            }
            assert(hex_bytes@ =~= rendered);
            lemma_rendered_is_guid_text(self@, case);
            lemma_parse_rendered(self@, case);
        }
        GuidString { hex_bytes }
    }

    /// The text of the GUID in upper case, as it is shown and stored.
    pub fn to_string(&self) -> (text: String)
        ensures
            encode_utf8(text@) == guid_text(self@, Case::Upper),
    {
        self.to_hex_str(Case::Upper).as_str().to_owned()
    }
}

impl core::str::FromStr for Guid {
    type Err = InvalidGuid;

    fn from_str(s: &str) -> (result: Result<Guid, InvalidGuid>)
        ensures
            match result {
                Ok(guid) => parse_guid(s.spec_bytes()) == Ok::<Seq<u8>, InvalidGuid>(guid@),
                Err(error) => parse_guid(s.spec_bytes()) == Err::<Seq<u8>, InvalidGuid>(error),
            },
    {
        Guid::from_hex_str(s)
    }
}

/// GUID string representation.
#[derive(Debug, Eq, Hash)]
pub struct GuidString {
    hex_bytes: [u8; 36],
}

impl View for GuidString {
    type V = Seq<u8>;

    /// The 36 ASCII characters of the text.
    closed spec fn view(&self) -> Seq<u8> {
        self.hex_bytes@
    }
}

impl GuidString {
    /// A text of this type is always that of a GUID.
    #[verifier::type_invariant]
    spec fn is_text_of_a_guid(&self) -> bool {
        is_guid_text(self.hex_bytes@, None)
    }
}

impl Clone for GuidString {
    fn clone(&self) -> (copy: GuidString)
        ensures
            copy@ == self@,
    {
        proof {
            use_type_invariant(self);
        }
        GuidString { hex_bytes: self.hex_bytes }
    }
}

impl PartialEq for GuidString {
    fn eq(&self, other: &GuidString) -> (equal: bool) {
        let mut i: usize = 0;
        while i < 36
            invariant
                i <= 36,
                forall|j: int| 0 <= j < i ==> self.hex_bytes@[j] == other.hex_bytes@[j],
            decreases 36 - i,
        {
            if self.hex_bytes[i] != other.hex_bytes[i] {
                return false;
            }
            i += 1;
        }
        assert(self.hex_bytes@ =~= other.hex_bytes@);
        true
    }
}

impl PartialEqSpecImpl for GuidString {
    open spec fn obeys_eq_spec() -> bool {
        true
    }

    open spec fn eq_spec(&self, other: &GuidString) -> bool {
        self@ == other@
    }
}

/// The bytes of a GUID's text are ASCII.
pub proof fn lemma_guid_text_is_ascii(text: Seq<u8>)
    requires
        is_guid_text(text, None),
    ensures
        is_ascii_bytes(text),
{
    assert forall|i: int| 0 <= i < text.len() implies #[trigger] text[i] < 0x80 by {
        assert(valid_at(text, i, None));
    }
}

impl GuidString {
    /// The text as a string slice.
    pub fn as_str(&self) -> (text: &str)
        ensures
            text.spec_bytes() == self@,
    {
        proof {
            use_type_invariant(self);
            lemma_guid_text_is_ascii(self.hex_bytes@);
            lemma_ascii_is_utf8(self.hex_bytes@);
        }
        utf8_as_str(self.hex_bytes.as_slice())
    }
}

impl AsRef<str> for GuidString {
    fn as_ref(&self) -> (text: &str)
        ensures
            text.spec_bytes() == self@,
    {
        self.as_str()
    }
}

impl core::ops::Deref for GuidString {
    type Target = str;

    fn deref(&self) -> (text: &str)
        ensures
            text.spec_bytes() == self@,
    {
        self.as_str()
    }
}

} // verus!
