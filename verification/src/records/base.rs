//! `BASES.DAT`: starbase records.
use crate::records::bytes::{
    chunks_match, lemma_chunks_flatten, lemma_flatten_chunks, le16, put16, read_array, read_u16,
    splice, uniform, write_slice, write_u16,
};
use crate::support::{copy_array, ParseError};
use crate::BASE_RECORD_SIZE;
use vstd::prelude::*;

verus! {

/// One starbase record.
#[derive(Debug, Clone, PartialEq, Eq)]
pub struct BaseRecord {
    pub raw: [u8; BASE_RECORD_SIZE],
}

impl BaseRecord {
    /// A record with every byte zero.
    pub fn new_zeroed() -> (r: Self)
        ensures
            forall|i: int| 0 <= i < BASE_RECORD_SIZE ==> r.raw@[i] == 0,
    {
        Self { raw: [0;BASE_RECORD_SIZE] }
    }

    pub fn local_slot_raw(&self) -> (r: u8)
        ensures
            r == self.raw@[0x00],
    {
        self.raw[0x00]
    }

    pub fn set_local_slot_raw(&mut self, value: u8)
        ensures
            final(self).raw@ == old(self).raw@.update(0x00, value),
    {
        self.raw[0x00] = value;
    }

    pub fn active_flag_raw(&self) -> (r: u8)
        ensures
            r == self.raw@[0x02],
    {
        self.raw[0x02]
    }

    pub fn summary_word_raw(&self) -> (r: u16)
        ensures
            r == le16(self.raw@, 0x02),
    {
        read_u16(&self.raw, 0x02)
    }

    pub fn set_summary_word_raw(&mut self, value: u16)
        ensures
            final(self).raw@ == put16(old(self).raw@, 0x02, value),
    {
        write_u16(&mut self.raw, 0x02, value);
    }

    pub fn set_active_flag_raw(&mut self, value: u8)
        ensures
            final(self).raw@ == old(self).raw@.update(0x02, value),
    {
        self.raw[0x02] = value;
    }

    pub fn base_id_raw(&self) -> (r: u8)
        ensures
            r == self.raw@[0x04],
    {
        self.raw[0x04]
    }

    pub fn set_base_id_raw(&mut self, value: u8)
        ensures
            final(self).raw@ == old(self).raw@.update(0x04, value),
    {
        self.raw[0x04] = value;
    }

    pub fn link_word_raw(&self) -> (r: u16)
        ensures
            r == le16(self.raw@, 0x05),
    {
        read_u16(&self.raw, 0x05)
    }

    pub fn set_link_word_raw(&mut self, value: u16)
        ensures
            final(self).raw@ == put16(old(self).raw@, 0x05, value),
    {
        write_u16(&mut self.raw, 0x05, value);
    }

    pub fn chain_word_raw(&self) -> (r: u16)
        ensures
            r == le16(self.raw@, 0x07),
    {
        read_u16(&self.raw, 0x07)
    }

    pub fn set_chain_word_raw(&mut self, value: u16)
        ensures
            final(self).raw@ == put16(old(self).raw@, 0x07, value),
    {
        write_u16(&mut self.raw, 0x07, value);
    }

    pub fn coords_raw(&self) -> (r: [u8; 2])
        ensures
            r@ == self.raw@.subrange(0x0B, 0xD),
    {
        read_array(&self.raw, 0x0B)
    }

    pub fn set_coords_raw(&mut self, coords: [u8; 2])
        ensures
            final(self).raw@ == splice(old(self).raw@, 0x0B, coords@),
    {
        write_slice(&mut self.raw, 0x0B, &coords);
    }

    pub fn tuple_a_payload_raw(&self) -> (r: [u8; 5])
        ensures
            r@ == self.raw@.subrange(0x0D, 0x12),
    {
        read_array(&self.raw, 0x0D)
    }

    pub fn set_tuple_a_payload_raw(&mut self, payload: [u8; 5])
        ensures
            final(self).raw@ == splice(old(self).raw@, 0x0D, payload@),
    {
        write_slice(&mut self.raw, 0x0D, &payload);
    }

    pub fn tuple_b_payload_raw(&self) -> (r: [u8; 5])
        ensures
            r@ == self.raw@.subrange(0x13, 0x18),
    {
        read_array(&self.raw, 0x13)
    }

    pub fn set_tuple_b_payload_raw(&mut self, payload: [u8; 5])
        ensures
            final(self).raw@ == splice(old(self).raw@, 0x13, payload@),
    {
        write_slice(&mut self.raw, 0x13, &payload);
    }

    pub fn tuple_c_payload_raw(&self) -> (r: [u8; 5])
        ensures
            r@ == self.raw@.subrange(0x19, 0x1E),
    {
        read_array(&self.raw, 0x19)
    }

    pub fn set_tuple_c_payload_raw(&mut self, payload: [u8; 5])
        ensures
            final(self).raw@ == splice(old(self).raw@, 0x19, payload@),
    {
        write_slice(&mut self.raw, 0x19, &payload);
    }

    pub fn trailing_coords_raw(&self) -> (r: [u8; 2])
        ensures
            r@ == self.raw@.subrange(0x20, 0x22),
    {
        read_array(&self.raw, 0x20)
    }

    pub fn set_trailing_coords_raw(&mut self, coords: [u8; 2])
        ensures
            final(self).raw@ == splice(old(self).raw@, 0x20, coords@),
    {
        write_slice(&mut self.raw, 0x20, &coords);
    }

    pub fn owner_empire_raw(&self) -> (r: u8)
        ensures
            r == self.raw@[0x22],
    {
        self.raw[0x22]
    }

    pub fn set_owner_empire_raw(&mut self, value: u8)
        ensures
            final(self).raw@ == old(self).raw@.update(0x22, value),
    {
        self.raw[0x22] = value;
    }

    pub fn from_raw(raw: [u8; BASE_RECORD_SIZE]) -> (r: Self)
        ensures
            r.raw == raw,
    {
        Self { raw }
    }
}

/// The whole `BASES.DAT` file.
#[derive(Debug, Clone, PartialEq, Eq)]
pub struct BaseDat {
    pub records: Vec<BaseRecord>,
}

/// The bytes of each record, in order.
pub open spec fn base_raws(records: Seq<BaseRecord>) -> Seq<Seq<u8>> {
    records.map_values(|r: BaseRecord| r.raw@)
}

impl BaseDat {
    /// Splits `data` into records; the length must be a whole number of records.
    pub fn parse(data: &[u8]) -> (r: Result<Self, ParseError>)
        ensures
            r is Ok <==> data@.len() % (BASE_RECORD_SIZE as nat) == 0,
            r matches Ok(d) ==> chunks_match(data@, base_raws(d.records@), BASE_RECORD_SIZE as int),
            r is Err ==> r == Err::<Self, ParseError>(
                ParseError::WrongRecordMultiple {
                    file_type: "BASES.DAT",
                    record_size: BASE_RECORD_SIZE,
                    actual: data@.len() as usize,
                },
            ),
    {
        if data.len() % BASE_RECORD_SIZE != 0 {
            return Err(
                ParseError::WrongRecordMultiple {
                    file_type: "BASES.DAT",
                    record_size: BASE_RECORD_SIZE,
                    actual: data.len(),
                },
            );
        }
        let n = data.len() / BASE_RECORD_SIZE;
        let mut records: Vec<BaseRecord> = Vec::new();
        let mut i: usize = 0;
        while i < n
            invariant
                n * BASE_RECORD_SIZE == data@.len(),
                data@.len() <= usize::MAX,
                i <= n,
                records@.len() == i,
                forall|k: int|
                    0 <= k < i ==> #[trigger] records@[k].raw@ == data@.subrange(
                        k * BASE_RECORD_SIZE,
                        k * BASE_RECORD_SIZE + BASE_RECORD_SIZE,
                    ),
            decreases n - i,
        {
            assert(i * BASE_RECORD_SIZE + BASE_RECORD_SIZE <= data@.len());
            let start = i * BASE_RECORD_SIZE;
            let chunk = &data[start..start + BASE_RECORD_SIZE];
            records.push(BaseRecord { raw: copy_array(chunk) });
            i = i + 1;
        }
        let d = Self { records };
        assert(chunks_match(data@, base_raws(d.records@), BASE_RECORD_SIZE as int));
        Ok(d)
    }

    /// The records laid end to end.
    pub fn to_bytes(&self) -> (out: Vec<u8>)
        ensures
            out@ == base_raws(self.records@).flatten(),
    {
        let mut out: Vec<u8> = Vec::new();
        let mut i: usize = 0;
        while i < self.records.len()
            invariant
                i <= self.records@.len(),
                out@ == base_raws(self.records@.take(i as int)).flatten(),
            decreases self.records@.len() - i,
        {
            let ghost prev = base_raws(self.records@.take(i as int));
            let rec = &self.records[i];
            let mut j: usize = 0;
            let ghost start = out@;
            while j < BASE_RECORD_SIZE
                invariant
                    j <= BASE_RECORD_SIZE,
                    out@ == start + rec.raw@.take(j as int),
                decreases BASE_RECORD_SIZE - j,
            {
                out.push(rec.raw[j]);
                j = j + 1;
                assert(out@ =~= start + rec.raw@.take(j as int));
            }
            proof {
                prev.lemma_flatten_push(rec.raw@);
                assert(base_raws(self.records@.take(i + 1)) =~= prev.push(rec.raw@));
                assert(rec.raw@.take(BASE_RECORD_SIZE as int) =~= rec.raw@);
            }
            i = i + 1;
        }
        assert(self.records@.take(self.records@.len() as int) =~= self.records@);
        out
    }
}

/// Writing the file and reading it back gives the same records.
pub proof fn lemma_base_dat_roundtrip(d: BaseDat)
    ensures
        base_raws(d.records@).flatten().len() % (BASE_RECORD_SIZE as nat) == 0,
        chunks_match(base_raws(d.records@).flatten(), base_raws(d.records@), BASE_RECORD_SIZE as int),
{
    assert(uniform(base_raws(d.records@), BASE_RECORD_SIZE as int));
    lemma_flatten_chunks(base_raws(d.records@), BASE_RECORD_SIZE as int);
    let n = d.records@.len() as int;
    assert((n * (BASE_RECORD_SIZE as int)) % (BASE_RECORD_SIZE as int) == 0) by (nonlinear_arith);
}

/// Reading the file and writing it back gives the same bytes.
pub proof fn lemma_base_bytes_roundtrip(data: Seq<u8>, recs: Seq<BaseRecord>)
    requires
        chunks_match(data, base_raws(recs), BASE_RECORD_SIZE as int),
    ensures
        base_raws(recs).flatten() == data,
{
    lemma_chunks_flatten(data, base_raws(recs), BASE_RECORD_SIZE as int);
}

} // verus!
