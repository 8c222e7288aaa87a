use cli_daw::pcm::{i16_block_to_i24, i16_to_i24, u16_block_to_i24, u16_to_i24};

#[test]
fn int16_to_container() {
    assert_eq!(i16_block_to_i24(&[0, 16384, -16384]), vec![0, 4194304, -4194304]);
    assert_eq!(i16_to_i24(i16::MIN), -8388608);
    assert_eq!(i16_to_i24(i16::MAX), 8388352);
}

#[test]
fn uint16_to_container() {
    assert_eq!(u16_to_i24(32768), 0);
    assert_eq!(u16_to_i24(0), -8388608);
    assert_eq!(u16_to_i24(65535), 8388352);
    assert_eq!(u16_block_to_i24(&[32768, 49152]), vec![0, 4194304]);
}
