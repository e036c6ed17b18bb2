use hle_render::rdp::{Rdp, WriteReturnSignal, DP_STATUS};

#[test]
fn status_register_reads_zero() {
    let mut rdp = Rdp::new();
    assert_eq!(DP_STATUS, 0x0010_000C);
    assert_eq!(rdp.read_u32(DP_STATUS), Ok(0));
    assert_eq!(rdp.read_u32(0x0010_000C), Ok(0));
}

#[test]
fn writes_are_accepted() {
    let mut rdp = Rdp::new();
    assert_eq!(rdp.write_u32(0xDEAD_BEEF, 0x0010_0000), Ok(WriteReturnSignal::NoSignal));
    assert_eq!(rdp.write_u32(0, DP_STATUS), Ok(WriteReturnSignal::NoSignal));
    assert_eq!(rdp.read_u32(DP_STATUS), Ok(0));
    assert_eq!(rdp, Rdp::new());
}
