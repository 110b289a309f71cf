//! `FLEETS.DAT`: fleet records and their standing orders.
use crate::records::bytes::{
    chunks_match, lemma_chunks_flatten, lemma_flatten_chunks, le16, put16, read_array, read_u16,
    splice, uniform, write_slice, write_u16,
};
use crate::support::{copy_array, ParseError};
use crate::text::{
    coords_text, count_parts, decimal, join_space, push_coords, push_count_part, push_decimal,
    push_str, text_with_coords,
};
use crate::FLEET_RECORD_SIZE;
use vstd::prelude::*;
use vstd::string::StringExecFns;

verus! {

/// One fleet record.
#[derive(Debug, Clone, PartialEq, Eq)]
pub struct FleetRecord {
    pub raw: [u8; FLEET_RECORD_SIZE],
}

/// The standing order a fleet carries out each year.
#[derive(Debug, Clone, Copy, PartialEq, Eq, Structural)]
pub enum FleetStandingOrderKind {
    HoldPosition,
    MoveOnly,
    SeekHome,
    PatrolSector,
    GuardStarbase,
    GuardBlockadeWorld,
    BombardWorld,
    InvadeWorld,
    BlitzWorld,
    ViewWorld,
    ScoutSector,
    ScoutSolarSystem,
    ColonizeWorld,
    JoinAnotherFleet,
    RendezvousSector,
    Salvage,
    Unknown(u8),
}

/// The order that the stored code `raw` names.
pub open spec fn order_kind_of(raw: u8) -> FleetStandingOrderKind {
    match raw {
        0 => FleetStandingOrderKind::HoldPosition,
        1 => FleetStandingOrderKind::MoveOnly,
        2 => FleetStandingOrderKind::SeekHome,
        3 => FleetStandingOrderKind::PatrolSector,
        4 => FleetStandingOrderKind::GuardStarbase,
        5 => FleetStandingOrderKind::GuardBlockadeWorld,
        6 => FleetStandingOrderKind::BombardWorld,
        7 => FleetStandingOrderKind::InvadeWorld,
        8 => FleetStandingOrderKind::BlitzWorld,
        9 => FleetStandingOrderKind::ViewWorld,
        10 => FleetStandingOrderKind::ScoutSector,
        11 => FleetStandingOrderKind::ScoutSolarSystem,
        12 => FleetStandingOrderKind::ColonizeWorld,
        13 => FleetStandingOrderKind::JoinAnotherFleet,
        14 => FleetStandingOrderKind::RendezvousSector,
        15 => FleetStandingOrderKind::Salvage,
        other => FleetStandingOrderKind::Unknown(other),
    }
}

/// Short machine name of an order.
pub open spec fn order_kind_name(k: FleetStandingOrderKind) -> Seq<char> {
    match k {
        FleetStandingOrderKind::HoldPosition => "hold"@,
        FleetStandingOrderKind::MoveOnly => "move"@,
        FleetStandingOrderKind::SeekHome => "seek_home"@,
        FleetStandingOrderKind::PatrolSector => "patrol"@,
        FleetStandingOrderKind::GuardStarbase => "guard_starbase"@,
        FleetStandingOrderKind::GuardBlockadeWorld => "guard_blockade"@,
        FleetStandingOrderKind::BombardWorld => "bombard"@,
        FleetStandingOrderKind::InvadeWorld => "invade"@,
        FleetStandingOrderKind::BlitzWorld => "blitz"@,
        FleetStandingOrderKind::ViewWorld => "view"@,
        FleetStandingOrderKind::ScoutSector => "scout_sector"@,
        FleetStandingOrderKind::ScoutSolarSystem => "scout_system"@,
        FleetStandingOrderKind::ColonizeWorld => "colonize"@,
        FleetStandingOrderKind::JoinAnotherFleet => "join_fleet"@,
        FleetStandingOrderKind::RendezvousSector => "rendezvous"@,
        FleetStandingOrderKind::Salvage => "salvage"@,
        FleetStandingOrderKind::Unknown(_) => "unknown"@,
    }
}

/// Menu label of an order.
pub open spec fn order_kind_label(k: FleetStandingOrderKind) -> Seq<char> {
    match k {
        FleetStandingOrderKind::HoldPosition => "Hold position"@,
        FleetStandingOrderKind::MoveOnly => "Move fleet"@,
        FleetStandingOrderKind::SeekHome => "Seek home"@,
        FleetStandingOrderKind::PatrolSector => "Patrol sector"@,
        FleetStandingOrderKind::GuardStarbase => "Guard starbase"@,
        FleetStandingOrderKind::GuardBlockadeWorld => "Guard/blockade world"@,
        FleetStandingOrderKind::BombardWorld => "Bombard world"@,
        FleetStandingOrderKind::InvadeWorld => "Invade world"@,
        FleetStandingOrderKind::BlitzWorld => "Blitz world"@,
        FleetStandingOrderKind::ViewWorld => "View world"@,
        FleetStandingOrderKind::ScoutSector => "Scout sector"@,
        FleetStandingOrderKind::ScoutSolarSystem => "Scout solar system"@,
        FleetStandingOrderKind::ColonizeWorld => "Colonize world"@,
        FleetStandingOrderKind::JoinAnotherFleet => "Join another fleet"@,
        FleetStandingOrderKind::RendezvousSector => "Rendezvous at sector"@,
        FleetStandingOrderKind::Salvage => "Salvage"@,
        FleetStandingOrderKind::Unknown(_) => "Unknown order"@,
    }
}

/// One-line description of an order aimed at `(x,y)`.
pub open spec fn order_summary_text(k: FleetStandingOrderKind, x: u8, y: u8) -> Seq<char> {
    match k {
        FleetStandingOrderKind::HoldPosition => "Hold position"@,
        FleetStandingOrderKind::MoveOnly => "Move fleet to Sector "@ + coords_text(x, y),
        FleetStandingOrderKind::SeekHome => "Seek home"@,
        FleetStandingOrderKind::PatrolSector => "Patrol Sector "@ + coords_text(x, y),
        FleetStandingOrderKind::GuardStarbase => "Guard starbase at Sector "@ + coords_text(x, y),
        FleetStandingOrderKind::GuardBlockadeWorld => "Guard/blockade world in System "@ + coords_text(x, y),
        FleetStandingOrderKind::BombardWorld => "Bombard world in System "@ + coords_text(x, y),
        FleetStandingOrderKind::InvadeWorld => "Invade world in System "@ + coords_text(x, y),
        FleetStandingOrderKind::BlitzWorld => "Blitz world in System "@ + coords_text(x, y),
        FleetStandingOrderKind::ViewWorld => "View world in System "@ + coords_text(x, y),
        FleetStandingOrderKind::ScoutSector => "Scout Sector "@ + coords_text(x, y),
        FleetStandingOrderKind::ScoutSolarSystem => "Scout solar system "@ + coords_text(x, y),
        FleetStandingOrderKind::ColonizeWorld => "Colonize world in System "@ + coords_text(x, y),
        FleetStandingOrderKind::JoinAnotherFleet => "Join another fleet at raw target "@ + coords_text(x, y),
        FleetStandingOrderKind::RendezvousSector => "Rendezvous at Sector "@ + coords_text(x, y),
        FleetStandingOrderKind::Salvage => "Salvage at Sector "@ + coords_text(x, y),
        FleetStandingOrderKind::Unknown(code) => "Unknown order "@ + decimal(code as nat)
            + " target "@ + coords_text(x, y),
    }
}

/// The code an order is stored as (the inverse of `order_kind_of`).
pub open spec fn order_code(k: FleetStandingOrderKind) -> u8 {
    match k {
        FleetStandingOrderKind::HoldPosition => 0,
        FleetStandingOrderKind::MoveOnly => 1,
        FleetStandingOrderKind::SeekHome => 2,
        FleetStandingOrderKind::PatrolSector => 3,
        FleetStandingOrderKind::GuardStarbase => 4,
        FleetStandingOrderKind::GuardBlockadeWorld => 5,
        FleetStandingOrderKind::BombardWorld => 6,
        FleetStandingOrderKind::InvadeWorld => 7,
        FleetStandingOrderKind::BlitzWorld => 8,
        FleetStandingOrderKind::ViewWorld => 9,
        FleetStandingOrderKind::ScoutSector => 10,
        FleetStandingOrderKind::ScoutSolarSystem => 11,
        FleetStandingOrderKind::ColonizeWorld => 12,
        FleetStandingOrderKind::JoinAnotherFleet => 13,
        FleetStandingOrderKind::RendezvousSector => 14,
        FleetStandingOrderKind::Salvage => 15,
        FleetStandingOrderKind::Unknown(v) => v,
    }
}

/// Decoding a stored order code and storing the order again gives back the
/// same code, for every byte.
pub proof fn lemma_order_code_roundtrip(raw: u8)
    ensures
        order_code(order_kind_of(raw)) == raw,
{
}

impl FleetStandingOrderKind {
    /// The code this order is stored as.
    pub fn to_raw(self) -> (r: u8)
        ensures
            r == order_code(self),
    {
        match self {
            Self::HoldPosition => 0,
            Self::MoveOnly => 1,
            Self::SeekHome => 2,
            Self::PatrolSector => 3,
            Self::GuardStarbase => 4,
            Self::GuardBlockadeWorld => 5,
            Self::BombardWorld => 6,
            Self::InvadeWorld => 7,
            Self::BlitzWorld => 8,
            Self::ViewWorld => 9,
            Self::ScoutSector => 10,
            Self::ScoutSolarSystem => 11,
            Self::ColonizeWorld => 12,
            Self::JoinAnotherFleet => 13,
            Self::RendezvousSector => 14,
            Self::Salvage => 15,
            Self::Unknown(v) => v,
        }
    }

    pub fn from_raw(raw: u8) -> (r: Self)
        ensures
            r == order_kind_of(raw),
    {
        match raw {
            0 => Self::HoldPosition,
            1 => Self::MoveOnly,
            2 => Self::SeekHome,
            3 => Self::PatrolSector,
            4 => Self::GuardStarbase,
            5 => Self::GuardBlockadeWorld,
            6 => Self::BombardWorld,
            7 => Self::InvadeWorld,
            8 => Self::BlitzWorld,
            9 => Self::ViewWorld,
            10 => Self::ScoutSector,
            11 => Self::ScoutSolarSystem,
            12 => Self::ColonizeWorld,
            13 => Self::JoinAnotherFleet,
            14 => Self::RendezvousSector,
            15 => Self::Salvage,
            other => Self::Unknown(other),
        }
    }

    pub fn as_str(self) -> (r: &'static str)
        ensures
            r@ == order_kind_name(self),
    {
        match self {
            Self::HoldPosition => "hold",
            Self::MoveOnly => "move",
            Self::SeekHome => "seek_home",
            Self::PatrolSector => "patrol",
            Self::GuardStarbase => "guard_starbase",
            Self::GuardBlockadeWorld => "guard_blockade",
            Self::BombardWorld => "bombard",
            Self::InvadeWorld => "invade",
            Self::BlitzWorld => "blitz",
            Self::ViewWorld => "view",
            Self::ScoutSector => "scout_sector",
            Self::ScoutSolarSystem => "scout_system",
            Self::ColonizeWorld => "colonize",
            Self::JoinAnotherFleet => "join_fleet",
            Self::RendezvousSector => "rendezvous",
            Self::Salvage => "salvage",
            Self::Unknown(_) => "unknown",
        }
    }

    pub fn display_label(self) -> (r: &'static str)
        ensures
            r@ == order_kind_label(self),
    {
        match self {
            Self::HoldPosition => "Hold position",
            Self::MoveOnly => "Move fleet",
            Self::SeekHome => "Seek home",
            Self::PatrolSector => "Patrol sector",
            Self::GuardStarbase => "Guard starbase",
            Self::GuardBlockadeWorld => "Guard/blockade world",
            Self::BombardWorld => "Bombard world",
            Self::InvadeWorld => "Invade world",
            Self::BlitzWorld => "Blitz world",
            Self::ViewWorld => "View world",
            Self::ScoutSector => "Scout sector",
            Self::ScoutSolarSystem => "Scout solar system",
            Self::ColonizeWorld => "Colonize world",
            Self::JoinAnotherFleet => "Join another fleet",
            Self::RendezvousSector => "Rendezvous at sector",
            Self::Salvage => "Salvage",
            Self::Unknown(_) => "Unknown order",
        }
    }
}

impl FleetRecord {
    pub fn local_slot_word_raw(&self) -> (r: u16)
        ensures
            r == le16(self.raw@, 0x00),
    {
        read_u16(&self.raw, 0x00)
    }

    pub fn local_slot(&self) -> (r: u8)
        ensures
            r == self.raw@[0x00],
    {
        self.raw[0x00]
    }

    /// The owning empire (1-based), the byte between the local slot word
    /// and the next-fleet link.
    pub fn owner_empire_raw(&self) -> (r: u8)
        ensures
            r == self.raw@[0x02],
    {
        self.raw[0x02]
    }

    pub fn set_owner_empire_raw(&mut self, value: u8)
        ensures
            final(self).raw@ == old(self).raw@.update(0x02, value),
    {
        self.raw[0x02] = value;
    }

    pub fn next_fleet_link_word_raw(&self) -> (r: u16)
        ensures
            r == le16(self.raw@, 0x03),
    {
        read_u16(&self.raw, 0x03)
    }

    /// Stores the global next-fleet link word (0x03-0x04).
    pub fn set_next_fleet_link_word_raw(&mut self, value: u16)
        ensures
            final(self).raw@ == put16(old(self).raw@, 0x03, value),
    {
        write_u16(&mut self.raw, 0x03, value);
    }

    pub fn next_fleet_id(&self) -> (r: u8)
        ensures
            r == self.raw@[0x03],
    {
        self.raw[0x03]
    }

    pub fn fleet_id_word_raw(&self) -> (r: u16)
        ensures
            r == le16(self.raw@, 0x05),
    {
        read_u16(&self.raw, 0x05)
    }

    /// Stores the global fleet id word (0x05-0x06).
    pub fn set_fleet_id_word_raw(&mut self, value: u16)
        ensures
            final(self).raw@ == put16(old(self).raw@, 0x05, value),
    {
        write_u16(&mut self.raw, 0x05, value);
    }

    pub fn fleet_id(&self) -> (r: u8)
        ensures
            r == self.raw@[0x05],
    {
        self.raw[0x05]
    }

    pub fn previous_fleet_id(&self) -> (r: u8)
        ensures
            r == self.raw@[0x07],
    {
        self.raw[0x07]
    }

    pub fn max_speed(&self) -> (r: u8)
        ensures
            r == self.raw@[0x09],
    {
        self.raw[0x09]
    }

    pub fn current_speed(&self) -> (r: u8)
        ensures
            r == self.raw@[0x0A],
    {
        self.raw[0x0A]
    }

    pub fn set_current_speed(&mut self, value: u8)
        ensures
            final(self).raw@ == old(self).raw@.update(0x0A, value),
    {
        self.raw[0x0A] = value;
    }

    pub fn current_location_coords_raw(&self) -> (r: [u8; 2])
        ensures
            r@ == self.raw@.subrange(0x0B, 0xD),
    {
        read_array(&self.raw, 0x0B)
    }

    pub fn mission_param_bytes(&self) -> (r: &[u8])
        ensures
            r@ == self.raw@.subrange(0x1F, 0x22),
    {
        &self.raw[0x1F..0x22]
    }

    pub fn standing_order_code_raw(&self) -> (r: u8)
        ensures
            r == self.raw@[0x1F],
    {
        self.raw[0x1F]
    }

    pub fn set_standing_order_code_raw(&mut self, value: u8)
        ensures
            final(self).raw@ == old(self).raw@.update(0x1F, value),
    {
        self.raw[0x1F] = value;
    }

    pub fn standing_order_kind(&self) -> (r: FleetStandingOrderKind)
        ensures
            r == order_kind_of(self.raw@[0x1F]),
    {
        FleetStandingOrderKind::from_raw(self.raw[0x1F])
    }

    /// Stores `kind` as the fleet's standing order.
    pub fn set_standing_order_kind(&mut self, kind: FleetStandingOrderKind)
        ensures
            final(self).raw@ == old(self).raw@.update(0x1F, order_code(kind)),
    {
        self.raw[0x1F] = kind.to_raw();
    }

    pub fn standing_order_target_coords_raw(&self) -> (r: [u8; 2])
        ensures
            r@ == self.raw@.subrange(0x20, 0x22),
    {
        read_array(&self.raw, 0x20)
    }

    pub fn set_standing_order_target_coords_raw(&mut self, coords: [u8; 2])
        ensures
            final(self).raw@ == splice(old(self).raw@, 0x20, coords@),
    {
        write_slice(&mut self.raw, 0x20, &coords);
    }

    pub fn mission_aux_bytes(&self) -> (r: [u8; 2])
        ensures
            r@ == self.raw@.subrange(0x22, 0x24),
    {
        read_array(&self.raw, 0x22)
    }

    pub fn guard_starbase_index_raw(&self) -> (r: u8)
        ensures
            r == self.raw@[0x22],
    {
        self.raw[0x22]
    }

    pub fn guard_starbase_enable_raw(&self) -> (r: u8)
        ensures
            r == self.raw@[0x23],
    {
        self.raw[0x23]
    }

    pub fn set_mission_aux_bytes(&mut self, value: [u8; 2])
        ensures
            final(self).raw@ == splice(old(self).raw@, 0x22, value@),
    {
        write_slice(&mut self.raw, 0x22, &value);
    }

    pub fn tuple_a_payload_raw(&self) -> (r: [u8; 5])
        ensures
            r@ == self.raw@.subrange(0x0D, 0x12),
    {
        read_array(&self.raw, 0x0D)
    }

    pub fn set_tuple_a_payload_raw(&mut self, payload: [u8; 5])
        ensures
            final(self).raw@ == splice(old(self).raw@, 0x0D, payload@),
    {
        write_slice(&mut self.raw, 0x0D, &payload);
    }

    pub fn tuple_b_payload_raw(&self) -> (r: [u8; 5])
        ensures
            r@ == self.raw@.subrange(0x13, 0x18),
    {
        read_array(&self.raw, 0x13)
    }

    pub fn set_tuple_b_payload_raw(&mut self, payload: [u8; 5])
        ensures
            final(self).raw@ == splice(old(self).raw@, 0x13, payload@),
    {
        write_slice(&mut self.raw, 0x13, &payload);
    }

    pub fn tuple_c_payload_raw(&self) -> (r: [u8; 5])
        ensures
            r@ == self.raw@.subrange(0x19, 0x1E),
    {
        read_array(&self.raw, 0x19)
    }

    pub fn set_tuple_c_payload_raw(&mut self, payload: [u8; 5])
        ensures
            final(self).raw@ == splice(old(self).raw@, 0x19, payload@),
    {
        write_slice(&mut self.raw, 0x19, &payload);
    }

    pub fn scout_count(&self) -> (r: u8)
        ensures
            r == self.raw@[0x24],
    {
        self.raw[0x24]
    }

    pub fn rules_of_engagement(&self) -> (r: u8)
        ensures
            r == self.raw@[0x25],
    {
        self.raw[0x25]
    }

    pub fn set_rules_of_engagement(&mut self, value: u8)
        ensures
            final(self).raw@ == old(self).raw@.update(0x25, value),
    {
        self.raw[0x25] = value;
    }

    pub fn set_scout_count(&mut self, value: u8)
        ensures
            final(self).raw@ == old(self).raw@.update(0x24, value),
    {
        self.raw[0x24] = value;
    }

    pub fn set_battleship_count(&mut self, value: u16)
        ensures
            final(self).raw@ == put16(old(self).raw@, 0x26, value),
    {
        write_u16(&mut self.raw, 0x26, value);
    }

    pub fn set_cruiser_count(&mut self, value: u16)
        ensures
            final(self).raw@ == put16(old(self).raw@, 0x28, value),
    {
        write_u16(&mut self.raw, 0x28, value);
    }

    pub fn set_destroyer_count(&mut self, value: u16)
        ensures
            final(self).raw@ == put16(old(self).raw@, 0x2A, value),
    {
        write_u16(&mut self.raw, 0x2A, value);
    }

    pub fn set_troop_transport_count(&mut self, value: u16)
        ensures
            final(self).raw@ == put16(old(self).raw@, 0x2C, value),
    {
        write_u16(&mut self.raw, 0x2C, value);
    }

    pub fn set_army_count(&mut self, value: u16)
        ensures
            final(self).raw@ == put16(old(self).raw@, 0x2E, value),
    {
        write_u16(&mut self.raw, 0x2E, value);
    }

    pub fn set_etac_count(&mut self, value: u16)
        ensures
            final(self).raw@ == put16(old(self).raw@, 0x30, value),
    {
        write_u16(&mut self.raw, 0x30, value);
    }

    pub fn battleship_count(&self) -> (r: u16)
        ensures
            r == le16(self.raw@, 0x26),
    {
        read_u16(&self.raw, 0x26)
    }

    pub fn cruiser_count(&self) -> (r: u16)
        ensures
            r == le16(self.raw@, 0x28),
    {
        read_u16(&self.raw, 0x28)
    }

    pub fn destroyer_count(&self) -> (r: u16)
        ensures
            r == le16(self.raw@, 0x2A),
    {
        read_u16(&self.raw, 0x2A)
    }

    pub fn troop_transport_count(&self) -> (r: u16)
        ensures
            r == le16(self.raw@, 0x2C),
    {
        read_u16(&self.raw, 0x2C)
    }

    pub fn army_count(&self) -> (r: u16)
        ensures
            r == le16(self.raw@, 0x2E),
    {
        read_u16(&self.raw, 0x2E)
    }

    pub fn etac_count(&self) -> (r: u16)
        ensures
            r == le16(self.raw@, 0x30),
    {
        read_u16(&self.raw, 0x30)
    }

    /// The standing order in readable form.
    pub fn standing_order_summary(&self) -> (r: String)
        ensures
            r@ == order_summary_text(order_kind_of(self.raw@[0x1F]), self.raw@[0x20], self.raw@[0x21]),
    {
        let x = self.raw[0x20];
        let y = self.raw[0x21];
        match self.standing_order_kind() {
            FleetStandingOrderKind::HoldPosition => String::from_str("Hold position"),
            FleetStandingOrderKind::MoveOnly => text_with_coords("Move fleet to Sector ", x, y),
            FleetStandingOrderKind::SeekHome => String::from_str("Seek home"),
            FleetStandingOrderKind::PatrolSector => text_with_coords("Patrol Sector ", x, y),
            FleetStandingOrderKind::GuardStarbase => text_with_coords("Guard starbase at Sector ", x, y),
            FleetStandingOrderKind::GuardBlockadeWorld => text_with_coords("Guard/blockade world in System ", x, y),
            FleetStandingOrderKind::BombardWorld => text_with_coords("Bombard world in System ", x, y),
            FleetStandingOrderKind::InvadeWorld => text_with_coords("Invade world in System ", x, y),
            FleetStandingOrderKind::BlitzWorld => text_with_coords("Blitz world in System ", x, y),
            FleetStandingOrderKind::ViewWorld => text_with_coords("View world in System ", x, y),
            FleetStandingOrderKind::ScoutSector => text_with_coords("Scout Sector ", x, y),
            FleetStandingOrderKind::ScoutSolarSystem => text_with_coords("Scout solar system ", x, y),
            FleetStandingOrderKind::ColonizeWorld => text_with_coords("Colonize world in System ", x, y),
            FleetStandingOrderKind::JoinAnotherFleet => text_with_coords("Join another fleet at raw target ", x, y),
            FleetStandingOrderKind::RendezvousSector => text_with_coords("Rendezvous at Sector ", x, y),
            FleetStandingOrderKind::Salvage => text_with_coords("Salvage at Sector ", x, y),
            FleetStandingOrderKind::Unknown(code) => {
                let mut s = String::from_str("Unknown order ");
                push_decimal(&mut s, code as u32);
                push_str(&mut s, " target ");
                push_coords(&mut s, x, y);
                assert(s@ =~= order_summary_text(FleetStandingOrderKind::Unknown(code), x, y));
                s
            },
        }
    }

    /// The counts this record holds, labelled as `ship_composition_summary` prints them.
    pub open spec fn composition_entries(self) -> Seq<(Seq<char>, nat)> {
        seq![
            ("SC"@, self.raw@[0x24] as nat),
            ("BB"@, le16(self.raw@, 0x26) as nat),
            ("CA"@, le16(self.raw@, 0x28) as nat),
            ("DD"@, le16(self.raw@, 0x2A) as nat),
            ("TT"@, le16(self.raw@, 0x2C) as nat),
            ("ARMY"@, le16(self.raw@, 0x2E) as nat),
            ("ET"@, le16(self.raw@, 0x30) as nat),
        ]
    }

    /// Non-zero ship and troop counts as `"SC=1 BB=2 ..."`, or `"none"`.
    pub fn ship_composition_summary(&self) -> (r: String)
        ensures
            r@ == (if count_parts(self.composition_entries()).len() == 0 {
                "none"@
            } else {
                join_space(count_parts(self.composition_entries()))
            }),
    {
        let ghost e = self.composition_entries();
        let mut s = String::new();
        let mut n: usize = 0;
        assert(e.take(0) =~= Seq::<(Seq<char>, nat)>::empty());
        n = push_count_part(&mut s, n, "SC", self.scout_count() as u32, Ghost(e.take(0)));
        assert(e.take(0).push(("SC"@, self.raw@[0x24] as nat)) =~= e.take(1));
        n = push_count_part(&mut s, n, "BB", self.battleship_count() as u32, Ghost(e.take(1)));
        assert(e.take(1).push(e[1]) =~= e.take(2));
        n = push_count_part(&mut s, n, "CA", self.cruiser_count() as u32, Ghost(e.take(2)));
        assert(e.take(2).push(e[2]) =~= e.take(3));
        n = push_count_part(&mut s, n, "DD", self.destroyer_count() as u32, Ghost(e.take(3)));
        assert(e.take(3).push(e[3]) =~= e.take(4));
        n = push_count_part(&mut s, n, "TT", self.troop_transport_count() as u32, Ghost(e.take(4)));
        assert(e.take(4).push(e[4]) =~= e.take(5));
        n = push_count_part(&mut s, n, "ARMY", self.army_count() as u32, Ghost(e.take(5)));
        assert(e.take(5).push(e[5]) =~= e.take(6));
        n = push_count_part(&mut s, n, "ET", self.etac_count() as u32, Ghost(e.take(6)));
        assert(e.take(6).push(e[6]) =~= e);
        if n == 0 {
            String::from_str("none")
        } else {
            s
        }
    }
}

/// The whole `FLEETS.DAT` file.
#[derive(Debug, Clone, PartialEq, Eq)]
pub struct FleetDat {
    pub records: Vec<FleetRecord>,
}

/// The bytes of each record, in order.
pub open spec fn fleet_raws(records: Seq<FleetRecord>) -> Seq<Seq<u8>> {
    records.map_values(|r: FleetRecord| r.raw@)
}

impl FleetDat {
    /// Splits `data` into records; the length must be a whole number of records.
    pub fn parse(data: &[u8]) -> (r: Result<Self, ParseError>)
        ensures
            r is Ok <==> data@.len() % (FLEET_RECORD_SIZE as nat) == 0,
            r matches Ok(d) ==> chunks_match(data@, fleet_raws(d.records@), FLEET_RECORD_SIZE as int),
            r is Err ==> r == Err::<Self, ParseError>(
                ParseError::WrongRecordMultiple {
                    file_type: "FLEETS.DAT",
                    record_size: FLEET_RECORD_SIZE,
                    actual: data@.len() as usize,
                },
            ),
    {
        if data.len() % FLEET_RECORD_SIZE != 0 {
            return Err(
                ParseError::WrongRecordMultiple {
                    file_type: "FLEETS.DAT",
                    record_size: FLEET_RECORD_SIZE,
                    actual: data.len(),
                },
            );
        }
        let n = data.len() / FLEET_RECORD_SIZE;
        let mut records: Vec<FleetRecord> = Vec::new();
        let mut i: usize = 0;
        while i < n
            invariant
                n * FLEET_RECORD_SIZE == data@.len(),
                data@.len() <= usize::MAX,
                i <= n,
                records@.len() == i,
                forall|k: int|
                    0 <= k < i ==> #[trigger] records@[k].raw@ == data@.subrange(
                        k * FLEET_RECORD_SIZE,
                        k * FLEET_RECORD_SIZE + FLEET_RECORD_SIZE,
                    ),
            decreases n - i,
        {
            assert(i * FLEET_RECORD_SIZE + FLEET_RECORD_SIZE <= data@.len());
            let start = i * FLEET_RECORD_SIZE;
            let chunk = &data[start..start + FLEET_RECORD_SIZE];
            records.push(FleetRecord { raw: copy_array(chunk) });
            i = i + 1;
        }
        let d = Self { records };
        assert(chunks_match(data@, fleet_raws(d.records@), FLEET_RECORD_SIZE as int));
        Ok(d)
    }

    /// The records laid end to end.
    pub fn to_bytes(&self) -> (out: Vec<u8>)
        ensures
            out@ == fleet_raws(self.records@).flatten(),
    {
        let mut out: Vec<u8> = Vec::new();
        let mut i: usize = 0;
        while i < self.records.len()
            invariant
                i <= self.records@.len(),
                out@ == fleet_raws(self.records@.take(i as int)).flatten(),
            decreases self.records@.len() - i,
        {
            let ghost prev = fleet_raws(self.records@.take(i as int));
            let rec = &self.records[i];
            let mut j: usize = 0;
            let ghost start = out@;
            while j < FLEET_RECORD_SIZE
                invariant
                    j <= FLEET_RECORD_SIZE,
                    out@ == start + rec.raw@.take(j as int),
                decreases FLEET_RECORD_SIZE - j,
            {
                out.push(rec.raw[j]);
                j = j + 1;
                assert(out@ =~= start + rec.raw@.take(j as int));
            }
            proof {
                prev.lemma_flatten_push(rec.raw@);
                assert(fleet_raws(self.records@.take(i + 1)) =~= prev.push(rec.raw@));
                assert(rec.raw@.take(FLEET_RECORD_SIZE as int) =~= rec.raw@);
            }
            i = i + 1;
        }
        assert(self.records@.take(self.records@.len() as int) =~= self.records@);
        out
    }
}

/// Writing the file and reading it back gives the same records.
pub proof fn lemma_fleet_dat_roundtrip(d: FleetDat)
    ensures
        fleet_raws(d.records@).flatten().len() % (FLEET_RECORD_SIZE as nat) == 0,
        chunks_match(fleet_raws(d.records@).flatten(), fleet_raws(d.records@), FLEET_RECORD_SIZE as int),
{
    assert(uniform(fleet_raws(d.records@), FLEET_RECORD_SIZE as int));
    lemma_flatten_chunks(fleet_raws(d.records@), FLEET_RECORD_SIZE as int);
    let n = d.records@.len() as int;
    assert((n * (FLEET_RECORD_SIZE as int)) % (FLEET_RECORD_SIZE as int) == 0) by (nonlinear_arith);
}

/// Reading the file and writing it back gives the same bytes.
pub proof fn lemma_fleet_bytes_roundtrip(data: Seq<u8>, recs: Seq<FleetRecord>)
    requires
        chunks_match(data, fleet_raws(recs), FLEET_RECORD_SIZE as int),
    ensures
        fleet_raws(recs).flatten() == data,
{
    lemma_chunks_flatten(data, fleet_raws(recs), FLEET_RECORD_SIZE as int);
}

} // verus!
