//! `SETUP.DAT`: sysop and modem configuration.
use crate::support::{copy_array, expect_size, ParseError};
use crate::SETUP_DAT_SIZE;
use vstd::prelude::*;

verus! {

/// The whole `SETUP.DAT` file.
#[derive(Debug, Clone, PartialEq, Eq)]
pub struct SetupDat {
    pub raw: [u8; SETUP_DAT_SIZE],
}

/// Copies a fixed-size byte array into a new vector.
pub fn array_to_vec<const N: usize>(raw: &[u8; N]) -> (out: Vec<u8>)
    ensures
        out@ == raw@,
{
    let mut out: Vec<u8> = Vec::new();
    let mut i: usize = 0;
    while i < N
        invariant
            i <= N,
            raw@.len() == N,
            out@ == raw@.take(i as int),
        decreases N - i,
    {
        out.push(raw[i]);
        i = i + 1;
        assert(out@ =~= raw@.take(i as int));
    }
    assert(raw@.take(N as int) =~= raw@);
    out
}

impl SetupDat {
    /// Reads the file; it must be exactly `SETUP_DAT_SIZE` bytes.
    pub fn parse(data: &[u8]) -> (r: Result<Self, ParseError>)
        ensures
            r is Ok <==> data@.len() == SETUP_DAT_SIZE,
            r matches Ok(d) ==> d.raw@ == data@,
            r is Err ==> r == Err::<Self, ParseError>(
                ParseError::WrongSize {
                    file_type: "SETUP.DAT",
                    expected: SETUP_DAT_SIZE,
                    actual: data@.len() as usize,
                },
            ),
    {
        match expect_size(data, SETUP_DAT_SIZE, "SETUP.DAT") {
            Ok(()) => Ok(Self { raw: copy_array(data) }),
            Err(e) => Err(e),
        }
    }

    pub fn version_tag(&self) -> (r: &[u8])
        ensures
            r@ == self.raw@.subrange(0, 5),
    {
        &self.raw[0..5]
    }

    pub fn option_prefix(&self) -> (r: &[u8])
        ensures
            r@ == self.raw@.subrange(5, 13),
    {
        &self.raw[5..13]
    }

    /// IRQ configured for serial port `com_index` (0..=3).
    pub fn com_irq_raw(&self, com_index: usize) -> (r: Option<u8>)
        ensures
            r == (if com_index < 4 { Some(self.raw@[5 + com_index]) } else { None::<u8> }),
    {
        if com_index < 4 {
            Some(self.raw[5 + com_index])
        } else {
            None
        }
    }

    /// Sets the IRQ of serial port `com_index`; `false` (and no change) past port 3.
    pub fn set_com_irq_raw(&mut self, com_index: usize, irq: u8) -> (ok: bool)
        ensures
            ok == (com_index < 4),
            final(self).raw@ == (if com_index < 4 {
                old(self).raw@.update(5 + com_index, irq)
            } else {
                old(self).raw@
            }),
    {
        if com_index < 4 {
            self.raw[5 + com_index] = irq;
            true
        } else {
            false
        }
    }

    /// Whether hardware flow control is on for serial port `com_index`.
    pub fn com_hardware_flow_control_enabled(&self, com_index: usize) -> (r: Option<bool>)
        ensures
            r == (if com_index < 4 { Some(self.raw@[9 + com_index] != 0) } else { None::<bool> }),
    {
        if com_index < 4 {
            Some(self.raw[9 + com_index] != 0)
        } else {
            None
        }
    }

    /// Switches hardware flow control for serial port `com_index`.
    pub fn set_com_hardware_flow_control_enabled(&mut self, com_index: usize, enabled: bool) -> (ok: bool)
        ensures
            ok == (com_index < 4),
            final(self).raw@ == (if com_index < 4 {
                old(self).raw@.update(9 + com_index, if enabled { 1u8 } else { 0u8 })
            } else {
                old(self).raw@
            }),
    {
        if com_index < 4 {
            self.raw[9 + com_index] = if enabled { 1 } else { 0 };
            true
        } else {
            false
        }
    }

    pub fn snoop_enabled(&self) -> (r: bool)
        ensures
            r == (self.raw@[512] != 0),
    {
        self.raw[512] != 0
    }

    pub fn set_snoop_enabled(&mut self, enabled: bool)
        ensures
            final(self).raw@ == old(self).raw@.update(512, if enabled { 1u8 } else { 0u8 }),
    {
        self.raw[512] = if enabled { 1 } else { 0 };
    }

    pub fn max_time_between_keys_minutes_raw(&self) -> (r: u8)
        ensures
            r == self.raw@[513],
    {
        self.raw[513]
    }

    pub fn set_max_time_between_keys_minutes_raw(&mut self, minutes: u8)
        ensures
            final(self).raw@ == old(self).raw@.update(513, minutes),
    {
        self.raw[513] = minutes;
    }

    pub fn remote_timeout_enabled(&self) -> (r: bool)
        ensures
            r == (self.raw@[515] != 0),
    {
        self.raw[515] != 0
    }

    pub fn set_remote_timeout_enabled(&mut self, enabled: bool)
        ensures
            final(self).raw@ == old(self).raw@.update(515, if enabled { 1u8 } else { 0u8 }),
    {
        self.raw[515] = if enabled { 1 } else { 0 };
    }

    pub fn local_timeout_enabled(&self) -> (r: bool)
        ensures
            r == (self.raw@[516] != 0),
    {
        self.raw[516] != 0
    }

    pub fn set_local_timeout_enabled(&mut self, enabled: bool)
        ensures
            final(self).raw@ == old(self).raw@.update(516, if enabled { 1u8 } else { 0u8 }),
    {
        self.raw[516] = if enabled { 1 } else { 0 };
    }

    pub fn minimum_time_granted_minutes_raw(&self) -> (r: u8)
        ensures
            r == self.raw@[517],
    {
        self.raw[517]
    }

    pub fn set_minimum_time_granted_minutes_raw(&mut self, minutes: u8)
        ensures
            final(self).raw@ == old(self).raw@.update(517, minutes),
    {
        self.raw[517] = minutes;
    }

    pub fn purge_after_turns_raw(&self) -> (r: u8)
        ensures
            r == self.raw@[518],
    {
        self.raw[518]
    }

    pub fn set_purge_after_turns_raw(&mut self, turns: u8)
        ensures
            final(self).raw@ == old(self).raw@.update(518, turns),
    {
        self.raw[518] = turns;
    }

    pub fn autopilot_inactive_turns_raw(&self) -> (r: u8)
        ensures
            r == self.raw@[520],
    {
        self.raw[520]
    }

    pub fn set_autopilot_inactive_turns_raw(&mut self, turns: u8)
        ensures
            final(self).raw@ == old(self).raw@.update(520, turns),
    {
        self.raw[520] = turns;
    }

    /// The file's bytes.
    pub fn to_bytes(&self) -> (out: Vec<u8>)
        ensures
            out@ == self.raw@,
    {
        array_to_vec(&self.raw)
    }
}

} // verus!
