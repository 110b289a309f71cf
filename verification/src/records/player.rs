//! `PLAYER.DAT`: one record per empire slot.
use crate::records::bytes::{
    chunks_match, fill, fill_range, lemma_chunks_flatten, lemma_flatten_chunks, le16, le32,
    put16, read_u16, read_u32, splice, uniform, write_slice, write_u16,
};
use crate::records::planet::capped;
use crate::support::{copy_array, trim_ascii_field, trimmed_field, ParseError};
use crate::text::{push_str, str_eq, str_starts_with};
use crate::PLAYER_RECORD_SIZE;
use vstd::prelude::*;
use vstd::string::StringSliceAdditionalSpecFns;

verus! {

/// How one empire stands toward another.
#[derive(Debug, Clone, Copy, PartialEq, Eq, Structural)]
pub enum DiplomaticRelation {
    Neutral,
    Enemy,
}

/// One empire slot.
#[derive(Debug, Clone, PartialEq, Eq)]
pub struct PlayerRecord {
    pub raw: [u8; PLAYER_RECORD_SIZE],
}

/// The record after storing `text` as a length-prefixed field: `max_len`
/// at 26, the length `len` (at most 82) at 27, the tail from 28 cleared,
/// then the bytes at 28.
pub open spec fn with_status_name(raw: Seq<u8>, max_len: u8, text: Seq<u8>) -> Seq<u8> {
    let len = capped(text.len(), 82);
    splice(fill(raw.update(26, max_len).update(27, len as u8), 28, 110, 0), 28, text.take(len as int))
}

/// The record after storing `text` as the controlled empire name.
pub open spec fn with_empire_name(raw: Seq<u8>, text: Seq<u8>) -> Seq<u8> {
    let len = capped(text.len(), 19);
    splice(fill(raw.update(26, 19).update(27, len as u8), 0x1C, 0x2F, 0), 0x1C, text.take(len as int))
}

/// The record after storing `text` as the player handle (space padded, at most 25 bytes).
pub open spec fn with_handle(raw: Seq<u8>, text: Seq<u8>) -> Seq<u8> {
    splice(fill(raw, 1, 0x1A, 0x20), 1, text.take(capped(text.len(), 25) as int))
}

/// The record with the results review pair set to `present`/0.
pub open spec fn with_results_review(raw: Seq<u8>, present: bool) -> Seq<u8> {
    put16(put16(raw, 0x34, if present { 1 } else { 0 }), 0x36, 0)
}

/// The record with the message review pair set to `present`/0.
pub open spec fn with_messages_review(raw: Seq<u8>, present: bool) -> Seq<u8> {
    put16(put16(raw, 0x30, if present { 1 } else { 0 }), 0x32, 0)
}

/// The stored byte for a relation.
/// The relation a player record stores toward empire `other` (1..=25):
/// byte 0 is neutral, byte 1 enemy; `None` outside that range or for any
/// other byte.
pub open spec fn relation_toward(raw: Seq<u8>, other: u8) -> Option<DiplomaticRelation> {
    if 1 <= other <= 25 {
        let b = raw[0x54 + other - 1];
        if b == 0 {
            Some(DiplomaticRelation::Neutral)
        } else if b == 1 {
            Some(DiplomaticRelation::Enemy)
        } else {
            None
        }
    } else {
        None
    }
}

pub open spec fn relation_byte(relation: DiplomaticRelation) -> u8 {
    match relation {
        DiplomaticRelation::Neutral => 0,
        DiplomaticRelation::Enemy => 1,
    }
}

impl PlayerRecord {
    /// A record with every byte zero.
    pub fn new_zeroed() -> (r: Self)
        ensures
            forall|i: int| 0 <= i < PLAYER_RECORD_SIZE ==> r.raw@[i] == 0,
    {
        Self { raw: [0;PLAYER_RECORD_SIZE] }
    }

    pub fn occupied_flag(&self) -> (r: u8)
        ensures
            r == self.raw@[0],
    {
        self.raw[0]
    }

    pub fn owner_mode_raw(&self) -> (r: u8)
        ensures
            r == self.raw@[0],
    {
        self.raw[0]
    }

    pub fn handle_bytes(&self) -> (r: &[u8])
        ensures
            r@ == self.raw@.subrange(1, 0x1A),
    {
        &self.raw[1..0x1A]
    }

    pub fn empire_name_bytes(&self) -> (r: &[u8])
        ensures
            r@ == self.raw@.subrange(0x1C, 0x2F),
    {
        &self.raw[0x1C..0x2F]
    }

    pub fn assigned_player_flag_raw(&self) -> (r: u8)
        ensures
            r == self.raw@[0],
    {
        self.raw[0]
    }

    pub fn legacy_status_name_max_len_raw(&self) -> (r: u8)
        ensures
            r == self.raw@[26],
    {
        self.raw[26]
    }

    pub fn legacy_status_name_len_raw(&self) -> (r: u8)
        ensures
            r == self.raw@[27],
    {
        self.raw[27]
    }

    pub fn controlled_empire_name_len_raw(&self) -> (r: u8)
        ensures
            r == self.raw@[27],
    {
        self.raw[27]
    }

    /// Message-side review state word.
    pub fn classic_message_review_word_raw(&self) -> (r: u16)
        ensures
            r == le16(self.raw@, 0x30),
    {
        read_u16(&self.raw, 0x30)
    }

    pub fn set_classic_message_review_word_raw(&mut self, value: u16)
        ensures
            final(self).raw@ == put16(old(self).raw@, 0x30, value),
    {
        write_u16(&mut self.raw, 0x30, value);
    }

    pub fn classic_message_review_carry_word_raw(&self) -> (r: u16)
        ensures
            r == le16(self.raw@, 0x32),
    {
        read_u16(&self.raw, 0x32)
    }

    pub fn set_classic_message_review_carry_word_raw(&mut self, value: u16)
        ensures
            final(self).raw@ == put16(old(self).raw@, 0x32, value),
    {
        write_u16(&mut self.raw, 0x32, value);
    }

    /// Results/report-side review state word.
    pub fn classic_results_review_word_raw(&self) -> (r: u16)
        ensures
            r == le16(self.raw@, 0x34),
    {
        read_u16(&self.raw, 0x34)
    }

    pub fn set_classic_results_review_word_raw(&mut self, value: u16)
        ensures
            final(self).raw@ == put16(old(self).raw@, 0x34, value),
    {
        write_u16(&mut self.raw, 0x34, value);
    }

    pub fn classic_results_review_carry_word_raw(&self) -> (r: u16)
        ensures
            r == le16(self.raw@, 0x36),
    {
        read_u16(&self.raw, 0x36)
    }

    pub fn set_classic_results_review_carry_word_raw(&mut self, value: u16)
        ensures
            final(self).raw@ == put16(old(self).raw@, 0x36, value),
    {
        write_u16(&mut self.raw, 0x36, value);
    }

    /// Set to 1 while undeleted results exist.
    pub fn classic_results_chain_flag_raw(&self) -> (r: u16)
        ensures
            r == le16(self.raw@, 0x38),
    {
        read_u16(&self.raw, 0x38)
    }

    pub fn set_classic_results_chain_flag_raw(&mut self, value: u16)
        ensures
            final(self).raw@ == put16(old(self).raw@, 0x38, value),
    {
        write_u16(&mut self.raw, 0x38, value);
    }

    /// Next free report chain id.
    pub fn classic_results_chain_next_free_raw(&self) -> (r: u16)
        ensures
            r == le16(self.raw@, 0x3C),
    {
        read_u16(&self.raw, 0x3C)
    }

    pub fn set_classic_results_chain_next_free_raw(&mut self, value: u16)
        ensures
            final(self).raw@ == put16(old(self).raw@, 0x3C, value),
    {
        write_u16(&mut self.raw, 0x3C, value);
    }

    pub fn classic_reports_pending_flag_raw(&self) -> (r: u8)
        ensures
            r == self.raw@[0x34],
    {
        self.raw[0x34]
    }

    pub fn set_classic_reports_pending_flag_raw(&mut self, value: u8)
        ensures
            final(self).raw@ == old(self).raw@.update(0x34, value),
    {
        self.raw[0x34] = value;
    }

    pub fn classic_messages_pending_flag_raw(&self) -> (r: u8)
        ensures
            r == self.raw@[0x30],
    {
        self.raw[0x30]
    }

    pub fn set_classic_messages_pending_flag_raw(&mut self, value: u8)
        ensures
            final(self).raw@ == old(self).raw@.update(0x30, value),
    {
        self.raw[0x30] = value;
    }

    pub fn tax_rate(&self) -> (r: u8)
        ensures
            r == self.raw@[0x51],
    {
        self.raw[0x51]
    }

    pub fn set_tax_rate_raw(&mut self, value: u8)
        ensures
            final(self).raw@ == old(self).raw@.update(0x51, value),
    {
        self.raw[0x51] = value;
    }

    pub fn starbase_count_raw(&self) -> (r: u16)
        ensures
            r == le16(self.raw@, 0x44),
    {
        read_u16(&self.raw, 0x44)
    }

    pub fn set_starbase_count_raw(&mut self, value: u16)
        ensures
            final(self).raw@ == put16(old(self).raw@, 0x44, value),
    {
        write_u16(&mut self.raw, 0x44, value);
    }

    pub fn starbase_presence_flag_raw(&self) -> (r: u8)
        ensures
            r == self.raw@[0x46],
    {
        self.raw[0x46]
    }

    pub fn set_starbase_presence_flag_raw(&mut self, value: u8)
        ensures
            final(self).raw@ == old(self).raw@.update(0x46, value),
    {
        self.raw[0x46] = value;
    }

    pub fn fleet_chain_head_raw(&self) -> (r: u16)
        ensures
            r == le16(self.raw@, 0x40),
    {
        read_u16(&self.raw, 0x40)
    }

    pub fn set_fleet_chain_head_raw(&mut self, value: u16)
        ensures
            final(self).raw@ == put16(old(self).raw@, 0x40, value),
    {
        write_u16(&mut self.raw, 0x40, value);
    }

    pub fn fleet_chain_tail_raw(&self) -> (r: u16)
        ensures
            r == le16(self.raw@, 0x42),
    {
        read_u16(&self.raw, 0x42)
    }

    pub fn set_fleet_chain_tail_raw(&mut self, value: u16)
        ensures
            final(self).raw@ == put16(old(self).raw@, 0x42, value),
    {
        write_u16(&mut self.raw, 0x42, value);
    }

    pub fn ipbm_count_raw(&self) -> (r: u16)
        ensures
            r == le16(self.raw@, 0x48),
    {
        read_u16(&self.raw, 0x48)
    }

    pub fn set_ipbm_count_raw(&mut self, value: u16)
        ensures
            final(self).raw@ == put16(old(self).raw@, 0x48, value),
    {
        write_u16(&mut self.raw, 0x48, value);
    }

    pub fn homeworld_planet_index_1_based_raw(&self) -> (r: u8)
        ensures
            r == self.raw@[0x4C],
    {
        self.raw[0x4C]
    }

    /// Last year this empire entered the game (0 for a fresh slot).
    pub fn last_run_year_raw(&self) -> (r: u16)
        ensures
            r == le16(self.raw@, 0x4E),
    {
        read_u16(&self.raw, 0x4E)
    }

    pub fn set_last_run_year_raw(&mut self, value: u16)
        ensures
            final(self).raw@ == put16(old(self).raw@, 0x4E, value),
    {
        write_u16(&mut self.raw, 0x4E, value);
    }

    pub fn planet_count_raw(&self) -> (r: u8)
        ensures
            r == self.raw@[0x50],
    {
        self.raw[0x50]
    }

    pub fn set_planet_count_raw(&mut self, value: u8)
        ensures
            final(self).raw@ == old(self).raw@.update(0x50, value),
    {
        self.raw[0x50] = value;
    }

    pub fn production_score_raw(&self) -> (r: u16)
        ensures
            r == le16(self.raw@, 0x52),
    {
        read_u16(&self.raw, 0x52)
    }

    pub fn set_production_score_raw(&mut self, value: u16)
        ensures
            final(self).raw@ == put16(old(self).raw@, 0x52, value),
    {
        write_u16(&mut self.raw, 0x52, value);
    }

    /// The 32-bit span at 0x52 (its upper half overlaps the diplomacy bytes).
    pub fn unknown_0x52_raw(&self) -> (r: u32)
        ensures
            r == le32(self.raw@, 0x52),
    {
        read_u32(&self.raw, 0x52)
    }

    /// 1 while the computer runs the empire.
    pub fn autopilot_flag(&self) -> (r: u8)
        ensures
            r == self.raw@[0x6D],
    {
        self.raw[0x6D]
    }

    pub fn set_autopilot_flag(&mut self, value: u8)
        ensures
            final(self).raw@ == old(self).raw@.update(0x6D, value),
    {
        self.raw[0x6D] = value;
    }

    pub fn set_occupied_flag(&mut self, value: u8)
        ensures
            final(self).raw@ == old(self).raw@.update(0, value),
    {
        self.raw[0] = value;
    }

    pub fn set_owner_empire_raw(&mut self, value: u8)
        ensures
            final(self).raw@ == old(self).raw@.update(0, value),
    {
        self.raw[0] = value;
    }

    pub fn is_active_player(&self) -> (r: bool)
        ensures
            r == (self.raw@[0] == 0x01),
    {
        self.owner_mode_raw() == 0x01
    }

    pub fn is_rogue_player(&self) -> (r: bool)
        ensures
            r == (self.raw@[0] == 0xff),
    {
        self.owner_mode_raw() == 0xff
    }

    pub fn is_active_or_rogue_player(&self) -> (r: bool)
        ensures
            r == (self.raw@[0] == 0x01 || self.raw@[0] == 0xff),
    {
        let m = self.owner_mode_raw();
        m == 0x01 || m == 0xff
    }

    /// The status/empire name text: `raw[27]` bytes from 28 (cut at the record end), trimmed.
    pub open spec fn status_name_text(self) -> Seq<char> {
        trimmed_field(self.raw@.subrange(28, 28 + capped(self.raw@[27] as nat, 82) as int))
    }

    /// The player handle text, trimmed.
    pub open spec fn handle_text(self) -> Seq<char> {
        trimmed_field(self.raw@.subrange(1, 0x1A))
    }

    fn name_field_summary(&self) -> (r: String)
        ensures
            r@ == self.status_name_text(),
    {
        let len = self.raw[27] as usize;
        let end = if 28 + len < PLAYER_RECORD_SIZE {
            28 + len
        } else {
            PLAYER_RECORD_SIZE
        };
        trim_ascii_field(&self.raw[28..end])
    }

    pub fn legacy_status_name_summary(&self) -> (r: String)
        ensures
            r@ == self.status_name_text(),
    {
        self.name_field_summary()
    }

    pub fn assigned_player_handle_summary(&self) -> (r: String)
        ensures
            r@ == self.handle_text(),
    {
        trim_ascii_field(&self.raw[1..0x1A])
    }

    /// Stores `value` as the player handle, space padded, cut to 25 bytes.
    pub fn set_assigned_player_handle_raw(&mut self, value: &str)
        ensures
            final(self).raw@ == with_handle(old(self).raw@, value.spec_bytes()),
    {
        let bytes = value.as_bytes();
        let len = if bytes.len() < 25 {
            bytes.len()
        } else {
            25
        };
        fill_range(&mut self.raw, 1, 0x1A, 0x20);
        write_slice(&mut self.raw, 1, &bytes[0..len]);
    }

    pub fn controlled_empire_name_summary(&self) -> (r: String)
        ensures
            r@ == self.status_name_text(),
    {
        self.name_field_summary()
    }

    pub fn has_classic_messages_review_state(&self) -> (r: bool)
        ensures
            r == (le16(self.raw@, 0x30) != 0 || le16(self.raw@, 0x32) != 0),
    {
        self.classic_message_review_word_raw() != 0 || self.classic_message_review_carry_word_raw() != 0
    }

    pub fn has_classic_results_review_state(&self) -> (r: bool)
        ensures
            r == (le16(self.raw@, 0x34) != 0 || le16(self.raw@, 0x36) != 0),
    {
        self.classic_results_review_word_raw() != 0 || self.classic_results_review_carry_word_raw() != 0
    }

    pub fn has_classic_results_chain_state(&self) -> (r: bool)
        ensures
            r == (le16(self.raw@, 0x38) != 0 || le16(self.raw@, 0x3C) != 0),
    {
        self.classic_results_chain_flag_raw() != 0 || self.classic_results_chain_next_free_raw() != 0
    }

    pub fn has_any_classic_review_state(&self) -> (r: bool)
        ensures
            r == (le16(self.raw@, 0x30) != 0 || le16(self.raw@, 0x32) != 0 || le16(self.raw@, 0x34)
                != 0 || le16(self.raw@, 0x36) != 0),
    {
        self.has_classic_messages_review_state() || self.has_classic_results_review_state()
    }

    pub fn set_classic_results_review_state_present(&mut self, present: bool)
        ensures
            final(self).raw@ == with_results_review(old(self).raw@, present),
    {
        self.set_classic_results_review_word_raw(if present { 1 } else { 0 });
        self.set_classic_results_review_carry_word_raw(0);
    }

    pub fn set_classic_messages_review_state_present(&mut self, present: bool)
        ensures
            final(self).raw@ == with_messages_review(old(self).raw@, present),
    {
        self.set_classic_message_review_word_raw(if present { 1 } else { 0 });
        self.set_classic_message_review_carry_word_raw(0);
    }

    /// Advertises (or clears) both login-time review families together.
    pub fn set_classic_login_reviewables_present(&mut self, present: bool)
        ensures
            final(self).raw@ == with_results_review(with_messages_review(old(self).raw@, present), present),
    {
        self.set_classic_messages_review_state_present(present);
        self.set_classic_results_review_state_present(present);
    }

    /// Stores the results chain flag and next free id (zero when absent),
    /// clearing the two reserved words beside them.
    pub fn set_classic_results_chain_state(&mut self, present: bool, next_free_id: u16)
        ensures
            final(self).raw@ == fill(
                put16(
                    fill(put16(old(self).raw@, 0x38, if present { 1 } else { 0 }), 0x3A, 0x3C, 0),
                    0x3C,
                    if present { next_free_id } else { 0 },
                ),
                0x3E,
                0x40,
                0,
            ),
    {
        self.set_classic_results_chain_flag_raw(if present { 1 } else { 0 });
        fill_range(&mut self.raw, 0x3A, 0x3C, 0);
        self.set_classic_results_chain_next_free_raw(if present { next_free_id } else { 0 });
        fill_range(&mut self.raw, 0x3E, 0x40, 0);
    }

    /// Stores `value` (cut to 19 bytes) as the controlled empire name.
    pub fn set_controlled_empire_name_raw(&mut self, value: &str)
        ensures
            final(self).raw@ == with_empire_name(old(self).raw@, value.spec_bytes()),
    {
        let bytes = value.as_bytes();
        let len = if bytes.len() < 19 {
            bytes.len()
        } else {
            19
        };
        self.raw[26] = 19;
        self.raw[27] = len as u8;
        fill_range(&mut self.raw, 0x1C, 0x2F, 0);
        write_slice(&mut self.raw, 0x1C, &bytes[0..len]);
    }

    /// Stores `value` (cut to 82 bytes) as the status name, length in both 26 and 27.
    pub fn set_legacy_status_name_raw(&mut self, value: &str)
        ensures
            final(self).raw@ == with_status_name(
                old(self).raw@,
                capped(value.spec_bytes().len(), 82) as u8,
                value.spec_bytes(),
            ),
    {
        let bytes = value.as_bytes();
        let len = if bytes.len() < 82 {
            bytes.len()
        } else {
            82
        };
        self.set_legacy_status_name_field_raw(len as u8, value);
    }

    /// Stores `value` (cut to 82 bytes) as the status name with maximum length `max_len`.
    pub fn set_legacy_status_name_field_raw(&mut self, max_len: u8, value: &str)
        ensures
            final(self).raw@ == with_status_name(old(self).raw@, max_len, value.spec_bytes()),
    {
        let bytes = value.as_bytes();
        let len = if bytes.len() < 82 {
            bytes.len()
        } else {
            82
        };
        self.raw[26] = max_len;
        self.raw[27] = len as u8;
        fill_range(&mut self.raw, 28, PLAYER_RECORD_SIZE, 0);
        write_slice(&mut self.raw, 28, &bytes[0..len]);
    }

    /// Hands the slot to civil disorder: unowned, handle cleared, status name set.
    pub fn set_civil_disorder_mode(&mut self)
        ensures
            final(self).raw@ == with_status_name(
                fill(old(self).raw@.update(0, 0), 1, 0x1A, 0),
                capped("In Civil Disorder".spec_bytes().len(), 82) as u8,
                "In Civil Disorder".spec_bytes(),
            ),
    {
        self.set_owner_empire_raw(0x00);
        fill_range(&mut self.raw, 1, 0x1A, 0);
        self.set_legacy_status_name_raw("In Civil Disorder");
    }

    /// The description `ownership_summary` gives.
    pub open spec fn ownership_text(self) -> Seq<char> {
        let legacy = self.status_name_text();
        let handle = self.handle_text();
        let empire = self.status_name_text();
        if self.raw@[0] == 0xff {
            "rogue label='"@ + legacy + "'"@
        } else if (17 <= legacy.len() && legacy.take(17) == "In Civil Disorder"@) || legacy
            == "Unowned"@ {
            "unowned label='"@ + legacy + "'"@
        } else if self.raw@[0] != 0 || handle.len() != 0 || empire.len() != 0 {
            "player handle='"@ + handle + "' empire='"@ + empire + "'"@
        } else {
            "unowned label='"@ + legacy + "'"@
        }
    }

    /// Who holds the slot: a rogue, nobody, or a player with handle and empire.
    pub fn ownership_summary(&self) -> (r: String)
        ensures
            r@ == self.ownership_text(),
    {
        let legacy = self.legacy_status_name_summary();
        let handle = self.assigned_player_handle_summary();
        let empire = self.controlled_empire_name_summary();
        proof {
            reveal_strlit("In Civil Disorder");
        }
        let mut s = String::new();
        if self.owner_mode_raw() == 0xff {
            push_str(&mut s, "rogue label='");
            push_str(&mut s, legacy.as_str());
            push_str(&mut s, "'");
        } else if str_starts_with(legacy.as_str(), "In Civil Disorder") || str_eq(
            legacy.as_str(),
            "Unowned",
        ) {
            push_str(&mut s, "unowned label='");
            push_str(&mut s, legacy.as_str());
            push_str(&mut s, "'");
        } else if self.assigned_player_flag_raw() != 0 || handle.as_str().unicode_len() != 0
            || empire.as_str().unicode_len() != 0 {
            push_str(&mut s, "player handle='");
            push_str(&mut s, handle.as_str());
            push_str(&mut s, "' empire='");
            push_str(&mut s, empire.as_str());
            push_str(&mut s, "'");
        } else {
            push_str(&mut s, "unowned label='");
            push_str(&mut s, legacy.as_str());
            push_str(&mut s, "'");
        }
        s
    }

    /// Stores the home world index (1-based) in both of its bytes.
    pub fn set_homeworld_planet_index_1_based_raw(&mut self, value: u8)
        ensures
            final(self).raw@ == old(self).raw@.update(0x4C, value).update(0x4D, value),
    {
        self.raw[0x4C] = value;
        self.raw[0x4D] = value;
    }

    /// The stored relation toward empire `other_empire_raw` (1..=25); `None`
    /// outside that range or for a byte that is neither 0 nor 1.
    pub fn diplomatic_relation_toward(&self, other_empire_raw: u8) -> (r: Option<DiplomaticRelation>)
        ensures
            r == relation_toward(self.raw@, other_empire_raw),
    {
        if !(1 <= other_empire_raw && other_empire_raw <= 25) {
            return None;
        }
        match self.diplomatic_relation_byte_raw(other_empire_raw) {
            Some(0x00) => Some(DiplomaticRelation::Neutral),
            Some(0x01) => Some(DiplomaticRelation::Enemy),
            _ => None,
        }
    }

    /// The stored diplomacy byte toward empire `other_empire_raw` (1..=25).
    pub fn diplomatic_relation_byte_raw(&self, other_empire_raw: u8) -> (r: Option<u8>)
        ensures
            r == (if 1 <= other_empire_raw <= 25 {
                Some(self.raw@[0x54 + other_empire_raw - 1])
            } else {
                None::<u8>
            }),
    {
        if !(1 <= other_empire_raw && other_empire_raw <= 25) {
            return None;
        }
        Some(self.raw[0x54 + other_empire_raw as usize - 1])
    }

    /// Stores the diplomacy byte toward empire `other_empire_raw`; `false`
    /// (and no change) outside 1..=25.
    pub fn set_diplomatic_relation_byte_raw(&mut self, other_empire_raw: u8, raw: u8) -> (ok: bool)
        ensures
            ok == (1 <= other_empire_raw <= 25),
            final(self).raw@ == (if 1 <= other_empire_raw <= 25 {
                old(self).raw@.update(0x54 + other_empire_raw - 1, raw)
            } else {
                old(self).raw@
            }),
    {
        if !(1 <= other_empire_raw && other_empire_raw <= 25) {
            return false;
        }
        self.raw[0x54 + other_empire_raw as usize - 1] = raw;
        true
    }

    /// Stores the relation toward empire `other_empire_raw`; `false` (and no
    /// change) outside 1..=25.
    pub fn set_diplomatic_relation_toward(&mut self, other_empire_raw: u8, relation: DiplomaticRelation) -> (ok: bool)
        ensures
            ok == (1 <= other_empire_raw <= 25),
            final(self).raw@ == (if 1 <= other_empire_raw <= 25 {
                old(self).raw@.update(0x54 + other_empire_raw - 1, relation_byte(relation))
            } else {
                old(self).raw@
            }),
    {
        if !(1 <= other_empire_raw && other_empire_raw <= 25) {
            return false;
        }
        self.set_diplomatic_relation_byte_raw(
            other_empire_raw,
            match relation {
                DiplomaticRelation::Neutral => 0x00,
                DiplomaticRelation::Enemy => 0x01,
            },
        );
        true
    }
}

/// The whole `PLAYER.DAT` file.
#[derive(Debug, Clone, PartialEq, Eq)]
pub struct PlayerDat {
    pub records: Vec<PlayerRecord>,
}

/// The bytes of each record, in order.
pub open spec fn player_raws(records: Seq<PlayerRecord>) -> Seq<Seq<u8>> {
    records.map_values(|r: PlayerRecord| r.raw@)
}

impl PlayerDat {
    /// Splits `data` into records; the length must be a whole number of records.
    pub fn parse(data: &[u8]) -> (r: Result<Self, ParseError>)
        ensures
            r is Ok <==> data@.len() % (PLAYER_RECORD_SIZE as nat) == 0,
            r matches Ok(d) ==> chunks_match(data@, player_raws(d.records@), PLAYER_RECORD_SIZE as int),
            r is Err ==> r == Err::<Self, ParseError>(
                ParseError::WrongRecordMultiple {
                    file_type: "PLAYER.DAT",
                    record_size: PLAYER_RECORD_SIZE,
                    actual: data@.len() as usize,
                },
            ),
    {
        if data.len() % PLAYER_RECORD_SIZE != 0 {
            return Err(
                ParseError::WrongRecordMultiple {
                    file_type: "PLAYER.DAT",
                    record_size: PLAYER_RECORD_SIZE,
                    actual: data.len(),
                },
            );
        }
        let n = data.len() / PLAYER_RECORD_SIZE;
        let mut records: Vec<PlayerRecord> = Vec::new();
        let mut i: usize = 0;
        while i < n
            invariant
                n * PLAYER_RECORD_SIZE == data@.len(),
                data@.len() <= usize::MAX,
                i <= n,
                records@.len() == i,
                forall|k: int|
                    0 <= k < i ==> #[trigger] records@[k].raw@ == data@.subrange(
                        k * PLAYER_RECORD_SIZE,
                        k * PLAYER_RECORD_SIZE + PLAYER_RECORD_SIZE,
                    ),
            decreases n - i,
        {
            assert(i * PLAYER_RECORD_SIZE + PLAYER_RECORD_SIZE <= data@.len());
            let start = i * PLAYER_RECORD_SIZE;
            let chunk = &data[start..start + PLAYER_RECORD_SIZE];
            records.push(PlayerRecord { raw: copy_array(chunk) });
            i = i + 1;
        }
        let d = Self { records };
        assert(chunks_match(data@, player_raws(d.records@), PLAYER_RECORD_SIZE as int));
        Ok(d)
    }

    /// The records laid end to end.
    pub fn to_bytes(&self) -> (out: Vec<u8>)
        ensures
            out@ == player_raws(self.records@).flatten(),
    {
        let mut out: Vec<u8> = Vec::new();
        let mut i: usize = 0;
        while i < self.records.len()
            invariant
                i <= self.records@.len(),
                out@ == player_raws(self.records@.take(i as int)).flatten(),
            decreases self.records@.len() - i,
        {
            let ghost prev = player_raws(self.records@.take(i as int));
            let rec = &self.records[i];
            let mut j: usize = 0;
            let ghost start = out@;
            while j < PLAYER_RECORD_SIZE
                invariant
                    j <= PLAYER_RECORD_SIZE,
                    out@ == start + rec.raw@.take(j as int),
                decreases PLAYER_RECORD_SIZE - j,
            {
                out.push(rec.raw[j]);
                j = j + 1;
                assert(out@ =~= start + rec.raw@.take(j as int));
            }
            proof {
                prev.lemma_flatten_push(rec.raw@);
                assert(player_raws(self.records@.take(i + 1)) =~= prev.push(rec.raw@));
                assert(rec.raw@.take(PLAYER_RECORD_SIZE as int) =~= rec.raw@);
            }
            i = i + 1;
        }
        assert(self.records@.take(self.records@.len() as int) =~= self.records@);
        out
    }
}

/// Writing the file and reading it back gives the same records.
pub proof fn lemma_player_dat_roundtrip(d: PlayerDat)
    ensures
        player_raws(d.records@).flatten().len() % (PLAYER_RECORD_SIZE as nat) == 0,
        chunks_match(player_raws(d.records@).flatten(), player_raws(d.records@), PLAYER_RECORD_SIZE as int),
{
    assert(uniform(player_raws(d.records@), PLAYER_RECORD_SIZE as int));
    lemma_flatten_chunks(player_raws(d.records@), PLAYER_RECORD_SIZE as int);
    let n = d.records@.len() as int;
    assert((n * (PLAYER_RECORD_SIZE as int)) % (PLAYER_RECORD_SIZE as int) == 0) by (nonlinear_arith);
}

/// Reading the file and writing it back gives the same bytes.
pub proof fn lemma_player_bytes_roundtrip(data: Seq<u8>, recs: Seq<PlayerRecord>)
    requires
        chunks_match(data, player_raws(recs), PLAYER_RECORD_SIZE as int),
    ensures
        player_raws(recs).flatten() == data,
{
    lemma_chunks_flatten(data, player_raws(recs), PLAYER_RECORD_SIZE as int);
}

} // verus!
