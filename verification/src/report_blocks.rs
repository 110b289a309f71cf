//! One block of a player's turn report, as the campaign store keeps it.
use vstd::prelude::*;

verus! {

/// A report block: its position, its decoded text, the classic bytes it was
/// read from (if any), and whether the recipient deleted it.
#[derive(Debug, Clone, PartialEq, Eq)]
pub struct ReportBlockRow {
    pub block_index: usize,
    pub decoded_text: String,
    pub raw_bytes: Option<Vec<u8>>,
    pub recipient_deleted: bool,
}

} // verus!
