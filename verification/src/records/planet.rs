//! `PLANETS.DAT`: the worlds of the map.
use crate::records::bytes::{
    chunks_match, fill, fill_range, lemma_chunks_flatten, lemma_flatten_chunks, le16, le32,
    put16, put32, read_array, read_u16, read_u32, splice, uniform, write_slice, write_u16,
    write_u32,
};
use crate::support::{copy_array, expect_size, trim_ascii_field, trimmed_field, ParseError};
use crate::text::{coords_text, decimal, hex2, push_coords, push_decimal, push_hex2, push_str, str_eq};
use crate::{PLANETS_DAT_SIZE, PLANET_RECORD_COUNT, PLANET_RECORD_SIZE};
use vstd::prelude::*;
use vstd::string::StringExecFns;
use vstd::string::StringSliceAdditionalSpecFns;

verus! {

/// One world.
#[derive(Debug, Clone, Copy, PartialEq, Eq)]
pub struct PlanetRecord {
    pub raw: [u8; PLANET_RECORD_SIZE],
}

/// `n` capped at `cap`.
pub open spec fn capped(n: nat, cap: nat) -> nat {
    if n < cap {
        n
    } else {
        cap
    }
}

/// The record after storing up to 13 bytes of `text` as the name/status
/// field: length at 0x0F, the field 0x10..0x1D cleared when `clear` holds,
/// then the bytes at 0x10.
pub open spec fn with_planet_text(raw: Seq<u8>, text: Seq<u8>, clear: bool) -> Seq<u8> {
    let len = capped(text.len(), 13);
    let base = raw.update(0x0F, len as u8);
    let cleared = if clear {
        fill(base, 0x10, 0x1D, 0)
    } else {
        base
    };
    splice(cleared, 0x10, text.take(len as int))
}

impl PlanetRecord {
    pub fn header_bytes(&self) -> (r: &[u8])
        ensures
            r@ == self.raw@.subrange(0, 3),
    {
        &self.raw[0..3]
    }

    pub fn coords_raw(&self) -> (r: [u8; 2])
        ensures
            r@ == self.raw@.subrange(0x00, 0x2),
    {
        read_array(&self.raw, 0x00)
    }

    pub fn header_value_raw(&self) -> (r: u8)
        ensures
            r == self.raw@[0x02],
    {
        self.raw[0x02]
    }

    pub fn string_len(&self) -> (r: u8)
        ensures
            r == self.raw@[0x0F],
    {
        self.raw[0x0F]
    }

    pub fn status_or_name_bytes(&self) -> (r: &[u8])
        ensures
            r@ == self.raw@.subrange(0x10, 0x1D),
    {
        &self.raw[0x10..0x1D]
    }

    pub fn potential_production_raw(&self) -> (r: [u8; 2])
        ensures
            r@ == self.raw@.subrange(0x02, 0x4),
    {
        read_array(&self.raw, 0x02)
    }

    pub fn set_potential_production_raw(&mut self, value: [u8; 2])
        ensures
            final(self).raw@ == splice(old(self).raw@, 0x02, value@),
    {
        write_slice(&mut self.raw, 0x02, &value);
    }

    pub fn factories_raw(&self) -> (r: [u8; 6])
        ensures
            r@ == self.raw@.subrange(0x04, 0xA),
    {
        read_array(&self.raw, 0x04)
    }

    pub fn set_factories_raw(&mut self, value: [u8; 6])
        ensures
            final(self).raw@ == splice(old(self).raw@, 0x04, value@),
    {
        write_slice(&mut self.raw, 0x04, &value);
    }

    pub fn stored_goods_raw(&self) -> (r: u32)
        ensures
            r == le32(self.raw@, 0x0A),
    {
        read_u32(&self.raw, 0x0A)
    }

    pub fn set_stored_goods_raw(&mut self, value: u32)
        ensures
            final(self).raw@ == put32(old(self).raw@, 0x0A, value),
    {
        write_u32(&mut self.raw, 0x0A, value);
    }

    pub fn planet_tax_rate_raw(&self) -> (r: u8)
        ensures
            r == self.raw@[0x0E],
    {
        self.raw[0x0E]
    }

    pub fn set_planet_tax_rate_raw(&mut self, value: u8)
        ensures
            final(self).raw@ == old(self).raw@.update(0x0E, value),
    {
        self.raw[0x0E] = value;
    }

    /// The record with `text` stored as its name/status field.
    fn store_text(&mut self, value: &str, clear: bool)
        ensures
            final(self).raw@ == with_planet_text(old(self).raw@, value.spec_bytes(), clear),
    {
        let bytes = value.as_bytes();
        let len = if bytes.len() < 13 {
            bytes.len()
        } else {
            13
        };
        self.raw[0x0F] = len as u8;
        if clear {
            fill_range(&mut self.raw, 0x10, 0x1D, 0);
        }
        write_slice(&mut self.raw, 0x10, &bytes[0..len]);
    }

    /// Replaces the name/status field with `value` (at most 13 bytes).
    pub fn set_status_or_name_summary_raw(&mut self, value: &str)
        ensures
            final(self).raw@ == with_planet_text(old(self).raw@, value.spec_bytes(), true),
    {
        self.store_text(value, true);
    }

    /// Writes `value` over the start of the name/status field, keeping the rest.
    pub fn set_status_or_name_prefix_raw(&mut self, value: &str)
        ensures
            final(self).raw@ == with_planet_text(old(self).raw@, value.spec_bytes(), false),
    {
        self.store_text(value, false);
    }

    pub fn build_count_raw(&self, slot: usize) -> (r: u8)
        requires
            0x24 + slot < PLANET_RECORD_SIZE,
        ensures
            r == self.raw@[0x24 + slot],
    {
        self.raw[0x24 + slot]
    }

    pub fn build_kind_raw(&self, slot: usize) -> (r: u8)
        requires
            0x2E + slot < PLANET_RECORD_SIZE,
        ensures
            r == self.raw@[0x2E + slot],
    {
        self.raw[0x2E + slot]
    }

    pub fn set_build_count_raw(&mut self, slot: usize, value: u8)
        requires
            0x24 + slot < PLANET_RECORD_SIZE,
        ensures
            final(self).raw@ == old(self).raw@.update(0x24 + slot, value),
    {
        self.raw[0x24 + slot] = value;
    }

    pub fn set_build_kind_raw(&mut self, slot: usize, value: u8)
        requires
            0x2E + slot < PLANET_RECORD_SIZE,
        ensures
            final(self).raw@ == old(self).raw@.update(0x2E + slot, value),
    {
        self.raw[0x2E + slot] = value;
    }

    pub fn stardock_count_raw(&self, slot: usize) -> (r: u16)
        requires
            0x38 + slot * 2 + 1 < PLANET_RECORD_SIZE,
        ensures
            r == le16(self.raw@, 0x38 + slot * 2),
    {
        read_u16(&self.raw, 0x38 + slot * 2)
    }

    pub fn stardock_kind_raw(&self, slot: usize) -> (r: u8)
        requires
            0x4C + slot < PLANET_RECORD_SIZE,
        ensures
            r == self.raw@[0x4C + slot],
    {
        self.raw[0x4C + slot]
    }

    pub fn set_stardock_count_raw(&mut self, slot: usize, value: u16)
        requires
            0x38 + slot * 2 + 1 < PLANET_RECORD_SIZE,
        ensures
            final(self).raw@ == put16(old(self).raw@, 0x38 + slot * 2, value),
    {
        write_u16(&mut self.raw, 0x38 + slot * 2, value);
    }

    pub fn set_stardock_kind_raw(&mut self, slot: usize, value: u8)
        requires
            0x4C + slot < PLANET_RECORD_SIZE,
        ensures
            final(self).raw@ == old(self).raw@.update(0x4C + slot, value),
    {
        self.raw[0x4C + slot] = value;
    }

    /// The name/status text: the stored length (at most 13) of bytes, trimmed.
    pub open spec fn status_text(self) -> Seq<char> {
        trimmed_field(self.raw@.subrange(0x10, 0x10 + capped(self.raw@[0x0F] as nat, 13) as int))
    }

    pub fn status_or_name_summary(&self) -> (r: String)
        ensures
            r@ == self.status_text(),
    {
        let len = self.raw[0x0F] as usize;
        let len = if len < 13 {
            len
        } else {
            13
        };
        trim_ascii_field(&self.raw[0x10..0x10 + len])
    }

    /// A world whose name field still reads `Not Named Yet` is an unclaimed homeworld.
    pub fn is_named_homeworld_seed(&self) -> (r: bool)
        ensures
            r == (self.status_text() == "Not Named Yet"@),
    {
        let text = self.status_or_name_summary();
        str_eq(text.as_str(), "Not Named Yet")
    }

    /// The one-line description of `derived_summary`.
    pub open spec fn summary_text(self) -> Seq<char> {
        let r = self.raw@;
        let s1 = coords_text(r[0], r[1]) + ": "@ + self.status_text();
        let s2 = if self.status_text() == "Not Named Yet"@ {
            s1 + " | likely_homeworld_seed"@
        } else {
            s1
        };
        let s3 = if r[0x24] != 0 || r[0x2E] != 0 {
            s2 + " | build_raw="@ + hex2(r[0x24]) + "/"@ + hex2(r[0x2E])
        } else {
            s2
        };
        let s4 = if r[0x5D] != 0 {
            s3 + " | owner_slot="@ + decimal(r[0x5D] as nat) + " owner_status="@ + hex2(r[0x5C])
        } else {
            s3
        };
        let s5 = if r[0x5A] != 0 {
            s4 + " | likely_armies="@ + decimal(r[0x5A] as nat)
        } else {
            s4
        };
        if r[0x58] != 0 {
            s5 + " | dev58="@ + decimal(r[0x58] as nat)
        } else {
            s5
        }
    }

    /// Coordinates, name and the notable raw fields on one line.
    pub fn derived_summary(&self) -> (out: String)
        ensures
            out@ == self.summary_text(),
    {
        let text = self.status_or_name_summary();
        let mut s = String::new();
        push_coords(&mut s, self.raw[0], self.raw[1]);
        push_str(&mut s, ": ");
        push_str(&mut s, text.as_str());
        if str_eq(text.as_str(), "Not Named Yet") {
            push_str(&mut s, " | likely_homeworld_seed");
        }
        if self.raw[0x24] != 0 || self.raw[0x2E] != 0 {
            push_str(&mut s, " | build_raw=");
            push_hex2(&mut s, self.raw[0x24]);
            push_str(&mut s, "/");
            push_hex2(&mut s, self.raw[0x2E]);
        }
        if self.raw[0x5D] != 0 {
            push_str(&mut s, " | owner_slot=");
            push_decimal(&mut s, self.raw[0x5D] as u32);
            push_str(&mut s, " owner_status=");
            push_hex2(&mut s, self.raw[0x5C]);
        }
        if self.raw[0x5A] != 0 {
            push_str(&mut s, " | likely_armies=");
            push_decimal(&mut s, self.raw[0x5A] as u32);
        }
        if self.raw[0x58] != 0 {
            push_str(&mut s, " | dev58=");
            push_decimal(&mut s, self.raw[0x58] as u32);
        }
        assert(s@ =~= self.summary_text());
        s
    }

    pub fn population_raw(&self) -> (r: [u8; 6])
        ensures
            r@ == self.raw@.subrange(0x52, 0x58),
    {
        read_array(&self.raw, 0x52)
    }

    pub fn set_population_raw(&mut self, value: [u8; 6])
        ensures
            final(self).raw@ == splice(old(self).raw@, 0x52, value@),
    {
        write_slice(&mut self.raw, 0x52, &value);
    }

    pub fn owner_empire_slot_raw(&self) -> (r: u8)
        ensures
            r == self.raw@[0x5D],
    {
        self.raw[0x5D]
    }

    pub fn set_owner_empire_slot_raw(&mut self, value: u8)
        ensures
            final(self).raw@ == old(self).raw@.update(0x5D, value),
    {
        self.raw[0x5D] = value;
    }

    pub fn army_count_raw(&self) -> (r: u8)
        ensures
            r == self.raw@[0x58],
    {
        self.raw[0x58]
    }

    pub fn likely_army_count_raw(&self) -> (r: u8)
        ensures
            r == self.raw@[0x5A],
    {
        self.raw[0x5A]
    }

    pub fn set_likely_army_count_raw(&mut self, value: u8)
        ensures
            final(self).raw@ == old(self).raw@.update(0x5A, value),
    {
        self.raw[0x5A] = value;
    }

    pub fn ground_batteries_raw(&self) -> (r: u8)
        ensures
            r == self.raw@[0x5A],
    {
        self.raw[0x5A]
    }

    pub fn developed_value_raw(&self) -> (r: u8)
        ensures
            r == self.raw@[0x58],
    {
        self.raw[0x58]
    }

    pub fn set_developed_value_raw(&mut self, value: u8)
        ensures
            final(self).raw@ == old(self).raw@.update(0x58, value),
    {
        self.raw[0x58] = value;
    }

    pub fn ownership_status_raw(&self) -> (r: u8)
        ensures
            r == self.raw@[0x5C],
    {
        self.raw[0x5C]
    }

    pub fn set_ownership_status_raw(&mut self, value: u8)
        ensures
            final(self).raw@ == old(self).raw@.update(0x5C, value),
    {
        self.raw[0x5C] = value;
    }
}

/// The whole `PLANETS.DAT` file: a fixed number of worlds.
#[derive(Debug, Clone, PartialEq, Eq)]
pub struct PlanetDat {
    pub records: [PlanetRecord; PLANET_RECORD_COUNT],
}

/// The bytes of each world, in order.
pub open spec fn planet_raws(records: Seq<PlanetRecord>) -> Seq<Seq<u8>> {
    records.map_values(|r: PlanetRecord| r.raw@)
}

impl PlanetDat {
    /// Reads the file; it must be exactly `PLANETS_DAT_SIZE` bytes.
    pub fn parse(data: &[u8]) -> (r: Result<Self, ParseError>)
        ensures
            r is Ok <==> data@.len() == PLANETS_DAT_SIZE,
            r matches Ok(d) ==> chunks_match(data@, planet_raws(d.records@), PLANET_RECORD_SIZE as int),
            r is Err ==> r == Err::<Self, ParseError>(
                ParseError::WrongSize {
                    file_type: "PLANETS.DAT",
                    expected: PLANETS_DAT_SIZE,
                    actual: data@.len() as usize,
                },
            ),
    {
        match expect_size(data, PLANETS_DAT_SIZE, "PLANETS.DAT") {
            Ok(()) => {},
            Err(e) => {
                return Err(e);
            },
        }
        let mut records = [PlanetRecord { raw: [0u8;PLANET_RECORD_SIZE] };PLANET_RECORD_COUNT];
        let mut i: usize = 0;
        while i < PLANET_RECORD_COUNT
            invariant
                i <= PLANET_RECORD_COUNT,
                data@.len() == PLANETS_DAT_SIZE,
                records@.len() == PLANET_RECORD_COUNT,
                forall|k: int|
                    0 <= k < i ==> #[trigger] records@[k].raw@ == data@.subrange(
                        k * PLANET_RECORD_SIZE,
                        k * PLANET_RECORD_SIZE + PLANET_RECORD_SIZE,
                    ),
            decreases PLANET_RECORD_COUNT - i,
        {
            let start = i * PLANET_RECORD_SIZE;
            let chunk = &data[start..start + PLANET_RECORD_SIZE];
            records[i] = PlanetRecord { raw: copy_array(chunk) };
            i = i + 1;
        }
        let d = Self { records };
        assert(chunks_match(data@, planet_raws(d.records@), PLANET_RECORD_SIZE as int));
        Ok(d)
    }

    /// The worlds laid end to end.
    pub fn to_bytes(&self) -> (out: Vec<u8>)
        ensures
            out@ == planet_raws(self.records@).flatten(),
    {
        let mut out: Vec<u8> = Vec::new();
        let mut i: usize = 0;
        while i < PLANET_RECORD_COUNT
            invariant
                i <= PLANET_RECORD_COUNT,
                self.records@.len() == PLANET_RECORD_COUNT,
                out@ == planet_raws(self.records@.take(i as int)).flatten(),
            decreases PLANET_RECORD_COUNT - i,
        {
            let ghost prev = planet_raws(self.records@.take(i as int));
            let rec = &self.records[i];
            let mut j: usize = 0;
            let ghost start = out@;
            while j < PLANET_RECORD_SIZE
                invariant
                    j <= PLANET_RECORD_SIZE,
                    out@ == start + rec.raw@.take(j as int),
                decreases PLANET_RECORD_SIZE - j,
            {
                out.push(rec.raw[j]);
                j = j + 1;
                assert(out@ =~= start + rec.raw@.take(j as int));
            }
            proof {
                prev.lemma_flatten_push(rec.raw@);
                assert(planet_raws(self.records@.take(i + 1)) =~= prev.push(rec.raw@));
                assert(rec.raw@.take(PLANET_RECORD_SIZE as int) =~= rec.raw@);
            }
            i = i + 1;
        }
        assert(self.records@.take(PLANET_RECORD_COUNT as int) =~= self.records@);
        out
    }
}

/// Writing the file gives exactly `PLANETS_DAT_SIZE` bytes, which read back
/// as the same worlds.
pub proof fn lemma_planet_dat_roundtrip(d: PlanetDat)
    ensures
        planet_raws(d.records@).flatten().len() == PLANETS_DAT_SIZE,
        chunks_match(planet_raws(d.records@).flatten(), planet_raws(d.records@), PLANET_RECORD_SIZE as int),
{
    assert(uniform(planet_raws(d.records@), PLANET_RECORD_SIZE as int));
    lemma_flatten_chunks(planet_raws(d.records@), PLANET_RECORD_SIZE as int);
}

/// Reading the file and writing it back gives the same bytes.
pub proof fn lemma_planet_bytes_roundtrip(data: Seq<u8>, recs: Seq<PlanetRecord>)
    requires
        chunks_match(data, planet_raws(recs), PLANET_RECORD_SIZE as int),
    ensures
        planet_raws(recs).flatten() == data,
{
    lemma_chunks_flatten(data, planet_raws(recs), PLANET_RECORD_SIZE as int);
}

} // verus!
