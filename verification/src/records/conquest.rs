//! `CONQUEST.DAT`: game-wide control header.
use crate::records::bytes::{le16, put16, read_array, read_u16, write_u16};
use crate::records::setup::array_to_vec;
use crate::support::{copy_array, expect_size, ParseError};
use crate::{CONQUEST_DAT_SIZE, MAINTENANCE_DAY_ENABLED_CODES};
use vstd::prelude::*;

verus! {

/// The whole `CONQUEST.DAT` file.
#[derive(Debug, Clone, PartialEq, Eq)]
pub struct ConquestDat {
    pub raw: [u8; CONQUEST_DAT_SIZE],
}

/// Offset of the word behind inactive production slot `slot` (0..=2).
pub open spec fn production_slot_offset(slot: int) -> int {
    if slot == 0 {
        0x0C
    } else if slot == 1 {
        0x0E
    } else {
        0x10
    }
}

impl ConquestDat {
    /// Reads the file; it must be exactly `CONQUEST_DAT_SIZE` bytes.
    pub fn parse(data: &[u8]) -> (r: Result<Self, ParseError>)
        ensures
            r is Ok <==> data@.len() == CONQUEST_DAT_SIZE,
            r matches Ok(d) ==> d.raw@ == data@,
            r is Err ==> r == Err::<Self, ParseError>(
                ParseError::WrongSize {
                    file_type: "CONQUEST.DAT",
                    expected: CONQUEST_DAT_SIZE,
                    actual: data@.len() as usize,
                },
            ),
    {
        match expect_size(data, CONQUEST_DAT_SIZE, "CONQUEST.DAT") {
            Ok(()) => Ok(Self { raw: copy_array(data) }),
            Err(e) => Err(e),
        }
    }

    /// The first 0x55 bytes: the control header.
    pub fn control_header(&self) -> (r: &[u8])
        ensures
            r@ == self.raw@.subrange(0, 0x55),
    {
        &self.raw[0..0x55]
    }

    pub fn game_year(&self) -> (r: u16)
        ensures
            r == le16(self.raw@, 0),
    {
        read_u16(&self.raw, 0)
    }

    pub fn player_count(&self) -> (r: u8)
        ensures
            r == self.raw@[2],
    {
        self.raw[2]
    }

    pub fn player_config_word(&self) -> (r: u16)
        ensures
            r == le16(self.raw@, 2),
    {
        read_u16(&self.raw, 2)
    }

    /// The seven per-weekday maintenance bytes (Sunday first).
    pub fn maintenance_schedule_bytes(&self) -> (r: [u8; 7])
        ensures
            r@ == self.raw@.subrange(3, 10),
    {
        read_array(&self.raw, 3)
    }

    /// Whether maintenance runs on each weekday (Sunday first).
    pub fn maintenance_schedule_enabled(&self) -> (r: [bool; 7])
        ensures
            forall|i: int| 0 <= i < 7 ==> r@[i] == (self.raw@[3 + i] != 0),
    {
        let b = self.maintenance_schedule_bytes();
        [b[0] != 0, b[1] != 0, b[2] != 0, b[3] != 0, b[4] != 0, b[5] != 0, b[6] != 0]
    }

    /// Stores the weekday schedule, using each day's enable code for `true`.
    pub fn set_maintenance_schedule_enabled(&mut self, enabled: [bool; 7])
        ensures
            forall|i: int|
                0 <= i < CONQUEST_DAT_SIZE ==> #[trigger] final(self).raw@[i] == if 3 <= i < 10 {
                    if enabled@[i - 3] {
                        MAINTENANCE_DAY_ENABLED_CODES@[i - 3]
                    } else {
                        0u8
                    }
                } else {
                    old(self).raw@[i]
                },
    {
        let mut idx: usize = 0;
        while idx < 7
            invariant
                idx <= 7,
                forall|i: int|
                    0 <= i < CONQUEST_DAT_SIZE ==> #[trigger] self.raw@[i] == if 3 <= i < 3 + idx {
                        if enabled@[i - 3] {
                            MAINTENANCE_DAY_ENABLED_CODES@[i - 3]
                        } else {
                            0u8
                        }
                    } else {
                        old(self).raw@[i]
                    },
            decreases 7 - idx,
        {
            self.raw[3 + idx] = if enabled[idx] {
                MAINTENANCE_DAY_ENABLED_CODES[idx]
            } else {
                0
            };
            idx = idx + 1;
        }
    }

    /// The control header read as little-endian words.
    pub fn header_words(&self) -> (r: Vec<u16>)
        ensures
            r@.len() == 42,
            forall|i: int| 0 <= i < 42 ==> #[trigger] r@[i] == le16(self.raw@, 2 * i),
    {
        let mut out: Vec<u16> = Vec::new();
        let mut i: usize = 0;
        while i < 42
            invariant
                i <= 42,
                out@.len() == i,
                forall|k: int| 0 <= k < i ==> #[trigger] out@[k] == le16(self.raw@, 2 * k),
            decreases 42 - i,
        {
            out.push(read_u16(&self.raw, 2 * i));
            i = i + 1;
        }
        out
    }

    pub fn set_game_year(&mut self, year: u16)
        ensures
            final(self).raw@ == put16(old(self).raw@, 0, year),
    {
        write_u16(&mut self.raw, 0, year);
    }

    pub fn set_player_count(&mut self, count: u8)
        ensures
            final(self).raw@ == old(self).raw@.update(2, count),
    {
        self.raw[2] = count;
    }

    /// The word of inactive production slot `slot`; `None` past slot 2.
    pub fn inactive_production_slot_raw(&self, slot: usize) -> (r: Option<u16>)
        ensures
            r == (if slot < 3 {
                Some(le16(self.raw@, production_slot_offset(slot as int)))
            } else {
                None::<u16>
            }),
    {
        match slot {
            0 => Some(self.raw_word(0x0C)),
            1 => Some(self.raw_word(0x0E)),
            2 => Some(self.raw_word(0x10)),
            _ => None,
        }
    }

    /// Stores the word of inactive production slot `slot`; `false` (and no change) past slot 2.
    pub fn set_inactive_production_slot_raw(&mut self, slot: usize, value: u16) -> (ok: bool)
        ensures
            ok == (slot < 3),
            final(self).raw@ == (if slot < 3 {
                put16(old(self).raw@, production_slot_offset(slot as int), value)
            } else {
                old(self).raw@
            }),
    {
        match slot {
            0 => {
                self.set_raw_word(0x0C, value);
                true
            },
            1 => {
                self.set_raw_word(0x0E, value);
                true
            },
            2 => {
                self.set_raw_word(0x10, value);
                true
            },
            _ => false,
        }
    }

    pub fn control_word_12_raw(&self) -> (r: u16)
        ensures
            r == le16(self.raw@, 0x12),
    {
        self.raw_word(0x12)
    }

    pub fn set_control_word_12_raw(&mut self, value: u16)
        ensures
            final(self).raw@ == put16(old(self).raw@, 0x12, value),
    {
        self.set_raw_word(0x12, value);
    }

    pub fn control_word_1a_raw(&self) -> (r: u16)
        ensures
            r == le16(self.raw@, 0x1A),
    {
        self.raw_word(0x1A)
    }

    pub fn set_control_word_1a_raw(&mut self, value: u16)
        ensures
            final(self).raw@ == put16(old(self).raw@, 0x1A, value),
    {
        self.set_raw_word(0x1A, value);
    }

    pub fn control_word_20_raw(&self) -> (r: u16)
        ensures
            r == le16(self.raw@, 0x20),
    {
        self.raw_word(0x20)
    }

    pub fn set_control_word_20_raw(&mut self, value: u16)
        ensures
            final(self).raw@ == put16(old(self).raw@, 0x20, value),
    {
        self.set_raw_word(0x20, value);
    }

    pub fn control_word_22_raw(&self) -> (r: u16)
        ensures
            r == le16(self.raw@, 0x22),
    {
        self.raw_word(0x22)
    }

    pub fn set_control_word_22_raw(&mut self, value: u16)
        ensures
            final(self).raw@ == put16(old(self).raw@, 0x22, value),
    {
        self.set_raw_word(0x22, value);
    }

    pub fn control_word_26_raw(&self) -> (r: u16)
        ensures
            r == le16(self.raw@, 0x26),
    {
        self.raw_word(0x26)
    }

    pub fn set_control_word_26_raw(&mut self, value: u16)
        ensures
            final(self).raw@ == put16(old(self).raw@, 0x26, value),
    {
        self.set_raw_word(0x26, value);
    }

    pub fn control_word_28_raw(&self) -> (r: u16)
        ensures
            r == le16(self.raw@, 0x28),
    {
        self.raw_word(0x28)
    }

    pub fn set_control_word_28_raw(&mut self, value: u16)
        ensures
            final(self).raw@ == put16(old(self).raw@, 0x28, value),
    {
        self.set_raw_word(0x28, value);
    }

    pub fn control_word_36_raw(&self) -> (r: u16)
        ensures
            r == le16(self.raw@, 0x36),
    {
        self.raw_word(0x36)
    }

    pub fn set_control_word_36_raw(&mut self, value: u16)
        ensures
            final(self).raw@ == put16(old(self).raw@, 0x36, value),
    {
        self.set_raw_word(0x36, value);
    }

    pub fn control_word_38_raw(&self) -> (r: u16)
        ensures
            r == le16(self.raw@, 0x38),
    {
        self.raw_word(0x38)
    }

    pub fn set_control_word_38_raw(&mut self, value: u16)
        ensures
            final(self).raw@ == put16(old(self).raw@, 0x38, value),
    {
        self.set_raw_word(0x38, value);
    }

    pub fn control_word_3a_raw(&self) -> (r: u16)
        ensures
            r == le16(self.raw@, 0x3A),
    {
        self.raw_word(0x3A)
    }

    pub fn set_control_word_3a_raw(&mut self, value: u16)
        ensures
            final(self).raw@ == put16(old(self).raw@, 0x3A, value),
    {
        self.set_raw_word(0x3A, value);
    }

    pub fn control_word_40_raw(&self) -> (r: u16)
        ensures
            r == le16(self.raw@, 0x40),
    {
        self.raw_word(0x40)
    }

    pub fn set_control_word_40_raw(&mut self, value: u16)
        ensures
            final(self).raw@ == put16(old(self).raw@, 0x40, value),
    {
        self.set_raw_word(0x40, value);
    }

    pub fn control_word_52_raw(&self) -> (r: u16)
        ensures
            r == le16(self.raw@, 0x52),
    {
        self.raw_word(0x52)
    }

    pub fn set_control_word_52_raw(&mut self, value: u16)
        ensures
            final(self).raw@ == put16(old(self).raw@, 0x52, value),
    {
        self.set_raw_word(0x52, value);
    }

    pub fn control_byte_3d_raw(&self) -> (r: u8)
        ensures
            r == self.raw@[0x3D],
    {
        self.raw_byte(0x3D)
    }

    pub fn set_control_byte_3d_raw(&mut self, value: u8)
        ensures
            final(self).raw@ == old(self).raw@.update(0x3D, value),
    {
        self.set_raw_byte(0x3D, value);
    }

    pub fn control_byte_44_raw(&self) -> (r: u8)
        ensures
            r == self.raw@[0x44],
    {
        self.raw_byte(0x44)
    }

    pub fn set_control_byte_44_raw(&mut self, value: u8)
        ensures
            final(self).raw@ == old(self).raw@.update(0x44, value),
    {
        self.set_raw_byte(0x44, value);
    }

    pub fn control_byte_47_raw(&self) -> (r: u8)
        ensures
            r == self.raw@[0x47],
    {
        self.raw_byte(0x47)
    }

    pub fn set_control_byte_47_raw(&mut self, value: u8)
        ensures
            final(self).raw@ == old(self).raw@.update(0x47, value),
    {
        self.set_raw_byte(0x47, value);
    }

    pub fn control_byte_48_raw(&self) -> (r: u8)
        ensures
            r == self.raw@[0x48],
    {
        self.raw_byte(0x48)
    }

    pub fn set_control_byte_48_raw(&mut self, value: u8)
        ensures
            final(self).raw@ == old(self).raw@.update(0x48, value),
    {
        self.set_raw_byte(0x48, value);
    }

    pub fn control_byte_4a_raw(&self) -> (r: u8)
        ensures
            r == self.raw@[0x4A],
    {
        self.raw_byte(0x4A)
    }

    pub fn set_control_byte_4a_raw(&mut self, value: u8)
        ensures
            final(self).raw@ == old(self).raw@.update(0x4A, value),
    {
        self.set_raw_byte(0x4A, value);
    }

    pub fn control_byte_4b_raw(&self) -> (r: u8)
        ensures
            r == self.raw@[0x4B],
    {
        self.raw_byte(0x4B)
    }

    pub fn set_control_byte_4b_raw(&mut self, value: u8)
        ensures
            final(self).raw@ == old(self).raw@.update(0x4B, value),
    {
        self.set_raw_byte(0x4B, value);
    }

    pub fn control_byte_54_raw(&self) -> (r: u8)
        ensures
            r == self.raw@[0x54],
    {
        self.raw_byte(0x54)
    }

    pub fn set_control_byte_54_raw(&mut self, value: u8)
        ensures
            final(self).raw@ == old(self).raw@.update(0x54, value),
    {
        self.set_raw_byte(0x54, value);
    }

    /// Zeroes the control byte at `offset` when it holds `value`.
    pub fn clear_control_byte_if_equal(&mut self, offset: usize, value: u8)
        requires
            offset < CONQUEST_DAT_SIZE,
        ensures
            final(self).raw@ == (if old(self).raw@[offset as int] == value {
                old(self).raw@.update(offset as int, 0)
            } else {
                old(self).raw@
            }),
    {
        self.clear_raw_byte_if_equal(offset, value);
    }

    pub fn raw_byte(&self, offset: usize) -> (r: u8)
        requires
            offset < CONQUEST_DAT_SIZE,
        ensures
            r == self.raw@[offset as int],
    {
        self.raw[offset]
    }

    pub fn set_raw_byte(&mut self, offset: usize, value: u8)
        requires
            offset < CONQUEST_DAT_SIZE,
        ensures
            final(self).raw@ == old(self).raw@.update(offset as int, value),
    {
        self.raw[offset] = value;
    }

    pub fn raw_word(&self, offset: usize) -> (r: u16)
        requires
            offset + 1 < CONQUEST_DAT_SIZE,
        ensures
            r == le16(self.raw@, offset as int),
    {
        read_u16(&self.raw, offset)
    }

    pub fn set_raw_word(&mut self, offset: usize, value: u16)
        requires
            offset + 1 < CONQUEST_DAT_SIZE,
        ensures
            final(self).raw@ == put16(old(self).raw@, offset as int, value),
    {
        write_u16(&mut self.raw, offset, value);
    }

    /// Zeroes the byte at `offset` when it holds `value`.
    pub fn clear_raw_byte_if_equal(&mut self, offset: usize, value: u8)
        requires
            offset < CONQUEST_DAT_SIZE,
        ensures
            final(self).raw@ == (if old(self).raw@[offset as int] == value {
                old(self).raw@.update(offset as int, 0)
            } else {
                old(self).raw@
            }),
    {
        if self.raw_byte(offset) == value {
            self.set_raw_byte(offset, 0);
        }
    }

    /// The file's bytes.
    pub fn to_bytes(&self) -> (out: Vec<u8>)
        ensures
            out@ == self.raw@,
    {
        array_to_vec(&self.raw)
    }
}

} // verus!
