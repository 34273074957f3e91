use vstd::prelude::*;

use crate::crc::{crc16, crc16_ibm_with_init, lemma_crc16_residue, with_checksum};

verus! {

/// Register value that Daly frames start their checksum from.
pub open spec fn frame_crc_init() -> u16 {
    0xFFFFu16
}

/// Body of the Daly "read status" request: address 0xD2, function 0x03
/// (read registers), start register 0x0000, register count 0x003E.
pub open spec fn read_command_body() -> Seq<u8> {
    seq![0xD2u8, 0x03u8, 0x00u8, 0x00u8, 0x00u8, 0x3Eu8]
}

/// Builds the Daly "read status" request: the fixed body followed by its
/// CRC-16 (initial register 0xFFFF), low byte first.
pub fn build_daly_read_command() -> (frame: Vec<u8>)
    ensures
        frame@ == with_checksum(read_command_body(), frame_crc_init()),
        frame@.len() == 8,
        crc16(frame@, frame_crc_init()) == 0,
{
    let mut frame: Vec<u8> = vec![0xD2, 0x03, 0x00, 0x00, 0x00, 0x3E];
    assert(frame@ =~= read_command_body());
    let crc: u16 = crc16_ibm_with_init(frame.as_slice(), 0xFFFF);
    frame.push((crc & 0xFF) as u8);
    frame.push((crc >> 8) as u8);
    assert(frame@ =~= with_checksum(read_command_body(), frame_crc_init()));
    proof {
        lemma_crc16_residue(read_command_body(), frame_crc_init());
    }
    frame
}

} // verus!
