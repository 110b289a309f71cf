//! `DATABASE.DAT`: what each empire knows about each world.
use crate::records::bytes::{
    chunks_match, fill, fill_range, lemma_chunks_flatten, lemma_flatten_chunks, le16, put16,
    read_array, read_u16, splice, uniform, write_slice, write_u16,
};
use crate::records::planet::capped;
use crate::support::{copy_array, ParseError};
use vstd::prelude::*;
use vstd::string::StringSliceAdditionalSpecFns;
use vstd::utf8::encode_utf8;

verus! {

/// Size in bytes of one `DATABASE.DAT` record.
pub const DATABASE_RECORD_SIZE: usize = 100;
/// Number of records: one per (empire, world) pair.
pub const DATABASE_RECORD_COUNT: usize = 80;
/// Size in bytes of the whole file.
pub const DATABASE_DAT_SIZE: usize = 8000;
/// Worlds per empire block in `DATABASE.DAT`.
const DATABASE_PLANETS_PER_EMPIRE: usize = 20;

/// One empire's view of one world.
#[derive(Debug, Clone, Copy, PartialEq, Eq)]
pub struct DatabaseRecord {
    pub raw: [u8; DATABASE_RECORD_SIZE],
}

/// The record after storing `name` (at most 14 bytes) as a length-prefixed
/// name in the cleared area 0x00..0x0F.
pub open spec fn with_planet_name(raw: Seq<u8>, name: Seq<u8>) -> Seq<u8> {
    let len = capped(name.len(), 14);
    splice(fill(raw, 0x00, 0x0F, 0).update(0, len as u8), 1, name.take(len as int))
}

impl DatabaseRecord {
    /// A record with every byte zero.
    pub fn new_zeroed() -> (r: Self)
        ensures
            forall|i: int| 0 <= i < DATABASE_RECORD_SIZE ==> r.raw@[i] == 0,
    {
        Self { raw: [0;DATABASE_RECORD_SIZE] }
    }

    pub fn from_raw(raw: [u8; DATABASE_RECORD_SIZE]) -> (r: Self)
        ensures
            r.raw == raw,
    {
        Self { raw }
    }

    /// The stored name: `raw[1..1+len]` for a length byte of 1..=14, else empty.
    pub fn planet_name_bytes(&self) -> (r: &[u8])
        ensures
            r@ == (if 0 < self.raw@[0] <= 14 {
                self.raw@.subrange(1, 1 + self.raw@[0])
            } else {
                Seq::<u8>::empty()
            }),
    {
        let len = self.raw[0x00] as usize;
        if len > 0 && len <= 14 {
            &self.raw[0x01..0x01 + len]
        } else {
            &self.raw[0x01..0x01]
        }
    }

    /// Stores `name` (cut to 14 bytes) as the world's name.
    pub fn set_planet_name(&mut self, name: &str)
        ensures
            final(self).raw@ == with_planet_name(old(self).raw@, name.spec_bytes()),
    {
        fill_range(&mut self.raw, 0x00, 0x0F, 0);
        let bytes = name.as_bytes();
        let len = if bytes.len() < 14 {
            bytes.len()
        } else {
            14
        };
        self.raw[0x00] = len as u8;
        write_slice(&mut self.raw, 0x01, &bytes[0..len]);
    }

    pub fn name_area_raw(&self) -> (r: [u8; 15])
        ensures
            r@ == self.raw@.subrange(0x00, 0xF),
    {
        read_array(&self.raw, 0x00)
    }

    pub fn set_name_area_raw(&mut self, area: [u8; 15])
        ensures
            final(self).raw@ == splice(old(self).raw@, 0x00, area@),
    {
        write_slice(&mut self.raw, 0x00, &area);
    }

    /// The little-endian word at `offset`.
    pub fn word_at(&self, offset: usize) -> (r: u16)
        requires
            offset + 1 < DATABASE_RECORD_SIZE,
        ensures
            r == le16(self.raw@, offset as int),
    {
        read_u16(&self.raw, offset)
    }

    /// Stores a little-endian word at `offset`.
    pub fn set_word_at(&mut self, offset: usize, value: u16)
        requires
            offset + 1 < DATABASE_RECORD_SIZE,
        ensures
            final(self).raw@ == put16(old(self).raw@, offset as int, value),
    {
        write_u16(&mut self.raw, offset, value);
    }

    pub fn year_word(&self) -> (r: u16)
        ensures
            r == le16(self.raw@, 0x08),
    {
        self.word_at(0x08)
    }

    pub fn set_year_word(&mut self, year: u16)
        ensures
            final(self).raw@ == put16(old(self).raw@, 0x08, year),
    {
        self.set_word_at(0x08, year);
    }

    /// Overwrites this record with `source`.
    pub fn copy_from(&mut self, source: &DatabaseRecord)
        ensures
            final(self).raw@ == source.raw@,
    {
        self.raw = source.raw;
    }
}

/// The whole `DATABASE.DAT` file.
#[derive(Debug, Clone, PartialEq, Eq)]
pub struct DatabaseDat {
    pub records: [DatabaseRecord; DATABASE_RECORD_COUNT],
}

/// The bytes of each record, in order.
pub open spec fn database_raws(records: Seq<DatabaseRecord>) -> Seq<Seq<u8>> {
    records.map_values(|r: DatabaseRecord| r.raw@)
}

/// Where an empire's view of a world is stored.
pub open spec fn database_index(planet_index: int, player_index: int) -> int {
    player_index * 20 + planet_index
}

/// The starting record at `idx` of `generate_from_planets_and_year`.
pub open spec fn template_record(template: Option<&DatabaseDat>, idx: int) -> Seq<u8> {
    match template {
        Some(t) => t.records@[idx].raw@,
        None => with_planet_name(Seq::new(100, |i: int| 0u8), "UNKNOWN".spec_bytes()),
    }
}

impl DatabaseDat {
    /// A file with every byte zero.
    pub fn new_zeroed() -> (r: Self)
        ensures
            forall|i: int, j: int|
                0 <= i < DATABASE_RECORD_COUNT && 0 <= j < DATABASE_RECORD_SIZE
                    ==> #[trigger] r.records@[i].raw@[j] == 0,
    {
        Self { records: [DatabaseRecord { raw: [0u8;DATABASE_RECORD_SIZE] };DATABASE_RECORD_COUNT] }
    }

    /// Reads the file; it must be exactly `DATABASE_DAT_SIZE` bytes.
    pub fn parse(data: &[u8]) -> (r: Result<Self, ParseError>)
        ensures
            r is Ok <==> data@.len() == DATABASE_DAT_SIZE,
            r matches Ok(d) ==> chunks_match(data@, database_raws(d.records@), DATABASE_RECORD_SIZE as int),
            r is Err ==> r == Err::<Self, ParseError>(
                ParseError::WrongSize {
                    file_type: "DATABASE.DAT",
                    expected: DATABASE_DAT_SIZE,
                    actual: data@.len() as usize,
                },
            ),
    {
        if data.len() != DATABASE_DAT_SIZE {
            return Err(
                ParseError::WrongSize {
                    file_type: "DATABASE.DAT",
                    expected: DATABASE_DAT_SIZE,
                    actual: data.len(),
                },
            );
        }
        let mut records = [DatabaseRecord { raw: [0u8;DATABASE_RECORD_SIZE] };DATABASE_RECORD_COUNT];
        let mut i: usize = 0;
        while i < DATABASE_RECORD_COUNT
            invariant
                i <= DATABASE_RECORD_COUNT,
                data@.len() == DATABASE_DAT_SIZE,
                records@.len() == DATABASE_RECORD_COUNT,
                forall|k: int|
                    0 <= k < i ==> #[trigger] records@[k].raw@ == data@.subrange(
                        k * DATABASE_RECORD_SIZE,
                        k * DATABASE_RECORD_SIZE + DATABASE_RECORD_SIZE,
                    ),
            decreases DATABASE_RECORD_COUNT - i,
        {
            let start = i * DATABASE_RECORD_SIZE;
            let chunk = &data[start..start + DATABASE_RECORD_SIZE];
            records[i] = DatabaseRecord { raw: copy_array(chunk) };
            i = i + 1;
        }
        let d = Self { records };
        assert(chunks_match(data@, database_raws(d.records@), DATABASE_RECORD_SIZE as int));
        Ok(d)
    }

    /// The records laid end to end.
    pub fn to_bytes(&self) -> (out: Vec<u8>)
        ensures
            out@ == database_raws(self.records@).flatten(),
    {
        let mut out: Vec<u8> = Vec::new();
        let mut i: usize = 0;
        while i < DATABASE_RECORD_COUNT
            invariant
                i <= DATABASE_RECORD_COUNT,
                self.records@.len() == DATABASE_RECORD_COUNT,
                out@ == database_raws(self.records@.take(i as int)).flatten(),
            decreases DATABASE_RECORD_COUNT - i,
        {
            let ghost prev = database_raws(self.records@.take(i as int));
            let rec = &self.records[i];
            let mut j: usize = 0;
            let ghost start = out@;
            while j < DATABASE_RECORD_SIZE
                invariant
                    j <= DATABASE_RECORD_SIZE,
                    out@ == start + rec.raw@.take(j as int),
                decreases DATABASE_RECORD_SIZE - j,
            {
                out.push(rec.raw[j]);
                j = j + 1;
                assert(out@ =~= start + rec.raw@.take(j as int));
            }
            proof {
                prev.lemma_flatten_push(rec.raw@);
                assert(database_raws(self.records@.take(i + 1)) =~= prev.push(rec.raw@));
                assert(rec.raw@.take(DATABASE_RECORD_SIZE as int) =~= rec.raw@);
            }
            i = i + 1;
        }
        assert(self.records@.take(DATABASE_RECORD_COUNT as int) =~= self.records@);
        out
    }

    /// Index of the record holding `player_index`'s view of `planet_index`.
    pub fn record_index(planet_index: usize, player_index: usize) -> (r: usize)
        requires
            player_index * 20 + planet_index <= usize::MAX,
        ensures
            r == database_index(planet_index as int, player_index as int),
    {
        player_index * DATABASE_PLANETS_PER_EMPIRE + planet_index
    }

    /// `player_index`'s view of `planet_index`, for editing.
    pub fn record_mut(&mut self, planet_index: usize, player_index: usize) -> (r: &mut DatabaseRecord)
        requires
            database_index(planet_index as int, player_index as int) < DATABASE_RECORD_COUNT,
        ensures
            *r == old(self).records@[database_index(planet_index as int, player_index as int)],
            final(self).records@ == old(self).records@.update(
                database_index(planet_index as int, player_index as int),
                *final(r),
            ),
    {
        let idx = Self::record_index(planet_index, player_index);
        &mut self.records[idx]
    }

    /// `player_index`'s view of `planet_index`.
    pub fn record(&self, planet_index: usize, player_index: usize) -> (r: &DatabaseRecord)
        requires
            database_index(planet_index as int, player_index as int) < DATABASE_RECORD_COUNT,
        ensures
            *r == self.records@[database_index(planet_index as int, player_index as int)],
    {
        let idx = Self::record_index(planet_index, player_index);
        &self.records[idx]
    }

    /// Fills the name of every world (the first 20) for the first four empires
    /// from `planet_names`, starting from `template` or, without one, from a
    /// zeroed file whose names all read `UNKNOWN`. The game year is not used:
    /// nothing of it is written into the records.
    pub fn generate_from_planets_and_year(
        planet_names: &[String],
        _game_year: u16,
        template: Option<&DatabaseDat>,
    ) -> (r: Self)
        ensures
            forall|planet: int, player: int|
                0 <= planet < 20 && 0 <= player < 4 ==> #[trigger] r.records@[database_index(
                    planet,
                    player,
                )].raw@ == if planet < planet_names@.len() {
                    with_planet_name(
                        template_record(template, database_index(planet, player)),
                        encode_utf8(planet_names@[planet]@),
                    )
                } else {
                    template_record(template, database_index(planet, player))
                },
    {
        let mut result = Self::new_zeroed();
        match template {
            Some(t) => {
                let mut i: usize = 0;
                while i < DATABASE_RECORD_COUNT
                    invariant
                        i <= DATABASE_RECORD_COUNT,
                        forall|k: int| 0 <= k < i ==> #[trigger] result.records@[k] == t.records@[k],
                    decreases DATABASE_RECORD_COUNT - i,
                {
                    result.records[i] = t.records[i];
                    i = i + 1;
                }
            },
            None => {
                let mut player: usize = 0;
                while player < 4
                    invariant
                        player <= 4,
                        forall|i: int, j: int|
                            0 <= i < DATABASE_RECORD_COUNT && i >= player * 20 && 0 <= j
                                < DATABASE_RECORD_SIZE ==> #[trigger] result.records@[i].raw@[j] == 0,
                        forall|k: int|
                            0 <= k < player * 20 ==> #[trigger] result.records@[k].raw@
                                == with_planet_name(Seq::new(100, |i: int| 0u8), "UNKNOWN".spec_bytes()),
                    decreases 4 - player,
                {
                    let mut planet: usize = 0;
                    while planet < 20
                        invariant
                            player < 4,
                            planet <= 20,
                            forall|i: int, j: int|
                                0 <= i < DATABASE_RECORD_COUNT && i >= player * 20 + planet && 0 <= j
                                    < DATABASE_RECORD_SIZE ==> #[trigger] result.records@[i].raw@[j] == 0,
                            forall|k: int|
                                0 <= k < player * 20 + planet ==> #[trigger] result.records@[k].raw@
                                    == with_planet_name(Seq::new(100, |i: int| 0u8), "UNKNOWN".spec_bytes()),
                        decreases 20 - planet,
                    {
                        let ghost before = result.records@[(player * 20 + planet) as int].raw@;
                        assert(before =~= Seq::new(100, |i: int| 0u8));
                        let record = result.record_mut(planet, player);
                        record.set_planet_name("UNKNOWN");
                        planet = planet + 1;
                    }
                    player = player + 1;
                }
            },
        }
        let ghost base = result.records@;
        assert forall|idx: int| 0 <= idx < 80 implies #[trigger] base[idx].raw@ == template_record(template, idx) by {}
        let count = if planet_names.len() < 20 {
            planet_names.len()
        } else {
            20
        };
        let mut planet_idx: usize = 0;
        while planet_idx < count
            invariant
                count <= 20,
                count <= planet_names@.len(),
                planet_idx <= count,
                forall|planet: int, player: int|
                    0 <= planet < 20 && 0 <= player < 4 ==> #[trigger] result.records@[database_index(
                        planet,
                        player,
                    )].raw@ == if planet < planet_idx {
                        with_planet_name(
                            base[database_index(planet, player)].raw@,
                            encode_utf8(planet_names@[planet]@),
                        )
                    } else {
                        base[database_index(planet, player)].raw@
                    },
            decreases count - planet_idx,
        {
            let name = planet_names[planet_idx].as_str();
            let mut player: usize = 0;
            while player < 4
                invariant
                    planet_idx < count <= 20,
                    count <= planet_names@.len(),
                    name@ == planet_names@[planet_idx as int]@,
                    player <= 4,
                    forall|planet: int, pl: int|
                        0 <= planet < 20 && 0 <= pl < 4 ==> #[trigger] result.records@[database_index(
                            planet,
                            pl,
                        )].raw@ == if planet < planet_idx || (planet == planet_idx && pl < player) {
                            with_planet_name(
                                base[database_index(planet, pl)].raw@,
                                encode_utf8(planet_names@[planet]@),
                            )
                        } else {
                            base[database_index(planet, pl)].raw@
                        },
                decreases 4 - player,
            {
                let record = result.record_mut(planet_idx, player);
                record.set_planet_name(name);
                player = player + 1;
            }
            planet_idx = planet_idx + 1;
        }
        result
    }
}

/// Writing the file gives exactly `DATABASE_DAT_SIZE` bytes, which read back
/// as the same records.
pub proof fn lemma_database_dat_roundtrip(d: DatabaseDat)
    ensures
        database_raws(d.records@).flatten().len() == DATABASE_DAT_SIZE,
        chunks_match(
            database_raws(d.records@).flatten(),
            database_raws(d.records@),
            DATABASE_RECORD_SIZE as int,
        ),
{
    assert(uniform(database_raws(d.records@), DATABASE_RECORD_SIZE as int));
    lemma_flatten_chunks(database_raws(d.records@), DATABASE_RECORD_SIZE as int);
}

/// Reading the file and writing it back gives the same bytes.
pub proof fn lemma_database_bytes_roundtrip(data: Seq<u8>, recs: Seq<DatabaseRecord>)
    requires
        chunks_match(data, database_raws(recs), DATABASE_RECORD_SIZE as int),
    ensures
        database_raws(recs).flatten() == data,
{
    lemma_chunks_flatten(data, database_raws(recs), DATABASE_RECORD_SIZE as int);
}

} // verus!
