//! `IPBM.DAT`: interplanetary ballistic missile records.
use crate::records::bytes::{
    chunks_match, lemma_chunks_flatten, lemma_flatten_chunks, le16, put16, read_array, read_u16,
    splice, uniform, write_slice, write_u16,
};
use crate::support::{copy_array, ParseError};
use crate::IPBM_RECORD_SIZE;
use vstd::prelude::*;

verus! {

/// One missile record.
#[derive(Debug, Clone, PartialEq, Eq)]
pub struct IpbmRecord {
    pub raw: [u8; IPBM_RECORD_SIZE],
}

impl IpbmRecord {
    /// A record with every byte zero.
    pub fn new_zeroed() -> (r: Self)
        ensures
            forall|i: int| 0 <= i < IPBM_RECORD_SIZE ==> r.raw@[i] == 0,
    {
        Self { raw: [0;IPBM_RECORD_SIZE] }
    }

    pub fn primary_word_raw(&self) -> (r: u16)
        ensures
            r == le16(self.raw@, 0x00),
    {
        read_u16(&self.raw, 0x00)
    }

    pub fn set_primary_word_raw(&mut self, value: u16)
        ensures
            final(self).raw@ == put16(old(self).raw@, 0x00, value),
    {
        write_u16(&mut self.raw, 0x00, value);
    }

    pub fn owner_empire_raw(&self) -> (r: u8)
        ensures
            r == self.raw@[0x02],
    {
        self.raw[0x02]
    }

    pub fn set_owner_empire_raw(&mut self, value: u8)
        ensures
            final(self).raw@ == old(self).raw@.update(0x02, value),
    {
        self.raw[0x02] = value;
    }

    pub fn gate_word_raw(&self) -> (r: u16)
        ensures
            r == le16(self.raw@, 0x03),
    {
        read_u16(&self.raw, 0x03)
    }

    pub fn set_gate_word_raw(&mut self, value: u16)
        ensures
            final(self).raw@ == put16(old(self).raw@, 0x03, value),
    {
        write_u16(&mut self.raw, 0x03, value);
    }

    pub fn follow_on_word_raw(&self) -> (r: u16)
        ensures
            r == le16(self.raw@, 0x05),
    {
        read_u16(&self.raw, 0x05)
    }

    pub fn set_follow_on_word_raw(&mut self, value: u16)
        ensures
            final(self).raw@ == put16(old(self).raw@, 0x05, value),
    {
        write_u16(&mut self.raw, 0x05, value);
    }

    pub fn tuple_a_tag_raw(&self) -> (r: u8)
        ensures
            r == self.raw@[0x09],
    {
        self.raw[0x09]
    }

    pub fn set_tuple_a_tag_raw(&mut self, value: u8)
        ensures
            final(self).raw@ == old(self).raw@.update(0x09, value),
    {
        self.raw[0x09] = value;
    }

    pub fn tuple_b_tag_raw(&self) -> (r: u8)
        ensures
            r == self.raw@[0x0A],
    {
        self.raw[0x0A]
    }

    pub fn set_tuple_b_tag_raw(&mut self, value: u8)
        ensures
            final(self).raw@ == old(self).raw@.update(0x0A, value),
    {
        self.raw[0x0A] = value;
    }

    pub fn tuple_a_payload_raw(&self) -> (r: [u8; 5])
        ensures
            r@ == self.raw@.subrange(0x0B, 0x10),
    {
        read_array(&self.raw, 0x0B)
    }

    pub fn set_tuple_a_payload_raw(&mut self, value: [u8; 5])
        ensures
            final(self).raw@ == splice(old(self).raw@, 0x0B, value@),
    {
        write_slice(&mut self.raw, 0x0B, &value);
    }

    pub fn tuple_b_payload_raw(&self) -> (r: [u8; 5])
        ensures
            r@ == self.raw@.subrange(0x11, 0x16),
    {
        read_array(&self.raw, 0x11)
    }

    pub fn set_tuple_b_payload_raw(&mut self, value: [u8; 5])
        ensures
            final(self).raw@ == splice(old(self).raw@, 0x11, value@),
    {
        write_slice(&mut self.raw, 0x11, &value);
    }

    pub fn tuple_c_payload_raw(&self) -> (r: [u8; 5])
        ensures
            r@ == self.raw@.subrange(0x17, 0x1C),
    {
        read_array(&self.raw, 0x17)
    }

    pub fn set_tuple_c_payload_raw(&mut self, value: [u8; 5])
        ensures
            final(self).raw@ == splice(old(self).raw@, 0x17, value@),
    {
        write_slice(&mut self.raw, 0x17, &value);
    }

    pub fn trailing_control_raw(&self) -> (r: [u8; 3])
        ensures
            r@ == self.raw@.subrange(0x1D, 0x20),
    {
        read_array(&self.raw, 0x1D)
    }

    pub fn set_trailing_control_raw(&mut self, value: [u8; 3])
        ensures
            final(self).raw@ == splice(old(self).raw@, 0x1D, value@),
    {
        write_slice(&mut self.raw, 0x1D, &value);
    }
}

/// The whole `IPBM.DAT` file.
#[derive(Debug, Clone, PartialEq, Eq)]
pub struct IpbmDat {
    pub records: Vec<IpbmRecord>,
}

/// The bytes of each record, in order.
pub open spec fn ipbm_raws(records: Seq<IpbmRecord>) -> Seq<Seq<u8>> {
    records.map_values(|r: IpbmRecord| r.raw@)
}

impl IpbmDat {
    /// Splits `data` into records; the length must be a whole number of records.
    pub fn parse(data: &[u8]) -> (r: Result<Self, ParseError>)
        ensures
            r is Ok <==> data@.len() % (IPBM_RECORD_SIZE as nat) == 0,
            r matches Ok(d) ==> chunks_match(data@, ipbm_raws(d.records@), IPBM_RECORD_SIZE as int),
            r is Err ==> r == Err::<Self, ParseError>(
                ParseError::WrongRecordMultiple {
                    file_type: "IPBM.DAT",
                    record_size: IPBM_RECORD_SIZE,
                    actual: data@.len() as usize,
                },
            ),
    {
        if data.len() % IPBM_RECORD_SIZE != 0 {
            return Err(
                ParseError::WrongRecordMultiple {
                    file_type: "IPBM.DAT",
                    record_size: IPBM_RECORD_SIZE,
                    actual: data.len(),
                },
            );
        }
        let n = data.len() / IPBM_RECORD_SIZE;
        let mut records: Vec<IpbmRecord> = Vec::new();
        let mut i: usize = 0;
        while i < n
            invariant
                n * IPBM_RECORD_SIZE == data@.len(),
                data@.len() <= usize::MAX,
                i <= n,
                records@.len() == i,
                forall|k: int|
                    0 <= k < i ==> #[trigger] records@[k].raw@ == data@.subrange(
                        k * IPBM_RECORD_SIZE,
                        k * IPBM_RECORD_SIZE + IPBM_RECORD_SIZE,
                    ),
            decreases n - i,
        {
            assert(i * IPBM_RECORD_SIZE + IPBM_RECORD_SIZE <= data@.len());
            let start = i * IPBM_RECORD_SIZE;
            let chunk = &data[start..start + IPBM_RECORD_SIZE];
            records.push(IpbmRecord { raw: copy_array(chunk) });
            i = i + 1;
        }
        let d = Self { records };
        assert(chunks_match(data@, ipbm_raws(d.records@), IPBM_RECORD_SIZE as int));
        Ok(d)
    }

    /// The records laid end to end.
    pub fn to_bytes(&self) -> (out: Vec<u8>)
        ensures
            out@ == ipbm_raws(self.records@).flatten(),
    {
        let mut out: Vec<u8> = Vec::new();
        let mut i: usize = 0;
        while i < self.records.len()
            invariant
                i <= self.records@.len(),
                out@ == ipbm_raws(self.records@.take(i as int)).flatten(),
            decreases self.records@.len() - i,
        {
            let ghost prev = ipbm_raws(self.records@.take(i as int));
            let rec = &self.records[i];
            let mut j: usize = 0;
            let ghost start = out@;
            while j < IPBM_RECORD_SIZE
                invariant
                    j <= IPBM_RECORD_SIZE,
                    out@ == start + rec.raw@.take(j as int),
                decreases IPBM_RECORD_SIZE - j,
            {
                out.push(rec.raw[j]);
                j = j + 1;
                assert(out@ =~= start + rec.raw@.take(j as int));
            }
            proof {
                prev.lemma_flatten_push(rec.raw@);
                assert(ipbm_raws(self.records@.take(i + 1)) =~= prev.push(rec.raw@));
                assert(rec.raw@.take(IPBM_RECORD_SIZE as int) =~= rec.raw@);
            }
            i = i + 1;
        }
        assert(self.records@.take(self.records@.len() as int) =~= self.records@);
        out
    }
}

/// Writing the file and reading it back gives the same records.
pub proof fn lemma_ipbm_dat_roundtrip(d: IpbmDat)
    ensures
        ipbm_raws(d.records@).flatten().len() % (IPBM_RECORD_SIZE as nat) == 0,
        chunks_match(ipbm_raws(d.records@).flatten(), ipbm_raws(d.records@), IPBM_RECORD_SIZE as int),
{
    assert(uniform(ipbm_raws(d.records@), IPBM_RECORD_SIZE as int));
    lemma_flatten_chunks(ipbm_raws(d.records@), IPBM_RECORD_SIZE as int);
    let n = d.records@.len() as int;
    assert((n * (IPBM_RECORD_SIZE as int)) % (IPBM_RECORD_SIZE as int) == 0) by (nonlinear_arith);
}

/// Reading the file and writing it back gives the same bytes.
pub proof fn lemma_ipbm_bytes_roundtrip(data: Seq<u8>, recs: Seq<IpbmRecord>)
    requires
        chunks_match(data, ipbm_raws(recs), IPBM_RECORD_SIZE as int),
    ensures
        ipbm_raws(recs).flatten() == data,
{
    lemma_chunks_flatten(data, ipbm_raws(recs), IPBM_RECORD_SIZE as int);
}

} // verus!
