use stm32_an3155::{
    checksum, decode_command, decode_response, encode_command, BootloaderCommand, Error, Response,
    Version,
};

const ALL_COMMANDS: [(BootloaderCommand, u8); 15] = [
    (BootloaderCommand::Get, 0x00),
    (BootloaderCommand::GetVersion, 0x01),
    (BootloaderCommand::GetId, 0x02),
    (BootloaderCommand::ReadMemory, 0x11),
    (BootloaderCommand::Go, 0x21),
    (BootloaderCommand::WriteMemory, 0x31),
    (BootloaderCommand::Erase, 0x43),
    (BootloaderCommand::ExtendedErase, 0x44),
    (BootloaderCommand::Special, 0x50),
    (BootloaderCommand::ExtendedSpecial, 0x51),
    (BootloaderCommand::WriteProtect, 0x63),
    (BootloaderCommand::WriteUnprotect, 0x73),
    (BootloaderCommand::ReadoutProtect, 0x82),
    (BootloaderCommand::ReadoutUnprotect, 0x92),
    (BootloaderCommand::GetChecksum, 0xA1),
];

#[test]
fn decode_response_exhaustive() {
    for b in 0..=255u8 {
        match decode_response(b) {
            Ok(Response::Ack) => assert_eq!(b, 0x79),
            Ok(Response::Nack) => assert_eq!(b, 0x1F),
            Err(Error::InvalidResponse(v)) => {
                assert_eq!(v, b);
                assert!(b != 0x79 && b != 0x1F);
            }
            Err(other) => panic!("unexpected error: {:?}", other),
        }
    }
}

#[test]
fn decode_command_exhaustive() {
    for b in 0..=255u8 {
        let expected = ALL_COMMANDS.iter().find(|(_, v)| *v == b);
        match (decode_command(b), expected) {
            (Ok(cmd), Some((want, _))) => assert_eq!(cmd, *want),
            (Err(Error::InvalidBootloaderCommand(v)), None) => assert_eq!(v, b),
            (got, want) => panic!("byte 0x{:02X}: got {:?}, wanted {:?}", b, got, want),
        }
    }
}

#[test]
fn encode_command_pairs_byte_with_complement() {
    for (cmd, byte) in ALL_COMMANDS {
        let frame = encode_command(cmd);
        assert_eq!(frame[0], byte);
        assert_eq!(frame[1], !frame[0]);
    }
}

#[test]
fn checksum_is_xor_fold() {
    assert_eq!(checksum(&[]), 0);
    assert_eq!(checksum(&[0xAB]), 0xAB);
    assert_eq!(checksum(&[0x01, 0x02, 0x04]), 0x07);
    assert_eq!(checksum(&[0xFF, 0xFF]), 0x00);
}

#[test]
fn checksum_is_its_own_inverse() {
    let samples: [&[u8]; 4] = [&[], &[0x42], &[1, 2, 3, 4, 5], &[0xFF, 0x00, 0xAA, 0x55]];
    for bytes in samples {
        let c = checksum(bytes);
        assert_eq!(c ^ c, 0);
        let mut appended = bytes.to_vec();
        appended.push(c);
        assert_eq!(checksum(&appended), 0);
    }
}

#[test]
fn version_unpacks_nibbles() {
    let ver = Version::from(0x10);
    assert_eq!(ver.major(), 1);
    assert_eq!(ver.minor(), 0);
    assert_eq!(ver.value(), (1, 0));

    let ver = Version::from(0xAB);
    assert_eq!(ver.major(), 10);
    assert_eq!(ver.minor(), 11);
    assert_eq!(ver.value(), (10, 11));
}
