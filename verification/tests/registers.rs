use st7789v::ColorFormat;
use st7789v::ColorOrder;
use st7789v::ColumnAddressOrder;
use st7789v::Command;
use st7789v::LatchOrder;
use st7789v::LineAddressOrder;
use st7789v::MemAccCtrlConfig;
use st7789v::PageAddressOrder;
use st7789v::PageColumnOrder;

#[test]
fn command_opcodes_match_the_protocol_constants() {
    assert_eq!(Command::NOP.value(), 0x00);
    assert_eq!(Command::SWRESET.value(), 0x01);
    assert_eq!(Command::SLPIN.value(), 0x10);
    assert_eq!(Command::SLPOUT.value(), 0x11);
    assert_eq!(Command::PTLON.value(), 0x12);
    assert_eq!(Command::NORON.value(), 0x13);
    assert_eq!(Command::INVOFF.value(), 0x20);
    assert_eq!(Command::INVON.value(), 0x21);
    assert_eq!(Command::DISPOFF.value(), 0x28);
    assert_eq!(Command::DISPON.value(), 0x29);
    assert_eq!(Command::CASET.value(), 0x2A);
    assert_eq!(Command::RASET.value(), 0x2B);
    assert_eq!(Command::RAMWR.value(), 0x2C);
    assert_eq!(Command::MADCTL.value(), 0x36);
    assert_eq!(Command::IDMOFF.value(), 0x38);
    assert_eq!(Command::IDMON.value(), 0x39);
    assert_eq!(Command::COLMOD.value(), 0x3A);
    assert_eq!(Command::RDID1.value(), 0xDA);
    assert_eq!(Command::RDID3.value(), 0xDC);
}

#[test]
fn color_format_values_cover_the_eight_valid_encodings() {
    assert_eq!(ColorFormat::RGB65K_CI12Bit.value(), 0b0101_0011);
    assert_eq!(ColorFormat::RGB65K_CI16Bit.value(), 0b0101_0101);
    assert_eq!(ColorFormat::RGB65K_CI18Bit.value(), 0b0101_0110);
    assert_eq!(ColorFormat::RGB65K_CI16MTrunc.value(), 0b0101_0111);
    assert_eq!(ColorFormat::RGB262K_CI12Bit.value(), 0b0110_0011);
    assert_eq!(ColorFormat::RGB262K_CI16Bit.value(), 0b0110_0101);
    assert_eq!(ColorFormat::RGB262K_CI18Bit.value(), 0b0110_0110);
    assert_eq!(ColorFormat::RGB262K_CI16MTrunc.value(), 0b0110_0111);
}

#[test]
fn orientation_axis_values_occupy_disjoint_bits() {
    assert_eq!(PageAddressOrder::TopToBottom.value(), 0x00);
    assert_eq!(PageAddressOrder::BottomToTop.value(), 0x80);
    assert_eq!(ColumnAddressOrder::LeftToRight.value(), 0x00);
    assert_eq!(ColumnAddressOrder::RightToLeft.value(), 0x40);
    assert_eq!(PageColumnOrder::NormalMode.value(), 0x00);
    assert_eq!(PageColumnOrder::ReverseMode.value(), 0x20);
    assert_eq!(LineAddressOrder::TopToBottom.value(), 0x00);
    assert_eq!(LineAddressOrder::BottomToTop.value(), 0x10);
    assert_eq!(ColorOrder::Rgb.value(), 0x00);
    assert_eq!(ColorOrder::Bgr.value(), 0x08);
    assert_eq!(LatchOrder::LeftToRight.value(), 0x00);
    assert_eq!(LatchOrder::RightToLeft.value(), 0x04);
}

#[test]
fn default_memory_access_control_encodes_to_zero() {
    assert_eq!(MemAccCtrlConfig::default().value(), 0x00);
}

#[test]
fn memory_access_control_is_the_or_of_its_six_axes() {
    let mut cfg = MemAccCtrlConfig::default();
    cfg.page_order(PageAddressOrder::BottomToTop);
    cfg.column_order(ColumnAddressOrder::RightToLeft);
    cfg.page_column_order(PageColumnOrder::ReverseMode);
    cfg.line_order(LineAddressOrder::BottomToTop);
    cfg.color_order(ColorOrder::Bgr);
    cfg.latch_order(LatchOrder::RightToLeft);
    assert_eq!(cfg.value(), 0x80 | 0x40 | 0x20 | 0x10 | 0x08 | 0x04);
}

#[test]
fn swapping_one_axis_changes_only_that_bit() {
    let base = MemAccCtrlConfig::default().value();

    let mut cfg = MemAccCtrlConfig::default();
    cfg.page_order(PageAddressOrder::BottomToTop);
    assert_eq!(cfg.value() ^ base, 0x80);

    let mut cfg = MemAccCtrlConfig::default();
    cfg.column_order(ColumnAddressOrder::RightToLeft);
    assert_eq!(cfg.value() ^ base, 0x40);

    let mut cfg = MemAccCtrlConfig::default();
    cfg.page_column_order(PageColumnOrder::ReverseMode);
    assert_eq!(cfg.value() ^ base, 0x20);

    let mut cfg = MemAccCtrlConfig::default();
    cfg.line_order(LineAddressOrder::BottomToTop);
    assert_eq!(cfg.value() ^ base, 0x10);

    let mut cfg = MemAccCtrlConfig::default();
    cfg.color_order(ColorOrder::Bgr);
    assert_eq!(cfg.value() ^ base, 0x08);

    let mut cfg = MemAccCtrlConfig::default();
    cfg.latch_order(LatchOrder::RightToLeft);
    assert_eq!(cfg.value() ^ base, 0x04);
}

#[test]
fn madctl_parameter_reaches_the_bus_unchanged() {
    let mut d: st7789v::ST7789V<
        st7789v::MockBus,
        st7789v::MockPin,
        st7789v::MockPin,
        st7789v::MockPin,
        st7789v::PinFault,
        st7789v::BusFault,
    > = st7789v::ST7789V::new(
        st7789v::MockBus::new(),
        st7789v::MockPin::new(),
        st7789v::MockPin::new(),
    );
    let mut cfg = MemAccCtrlConfig::default();
    cfg.color_order(ColorOrder::Bgr);
    cfg.line_order(LineAddressOrder::BottomToTop);
    d.memory_access_control(cfg).unwrap();
    let (bus, _cfg) = d.release().unwrap();
    assert_eq!(bus.recorded(), &vec![vec![0x36], vec![0x18]]);
}

#[test]
fn color_mode_sends_the_format_byte_and_settles() {
    let mut d: st7789v::ST7789V<
        st7789v::MockBus,
        st7789v::MockPin,
        st7789v::MockPin,
        st7789v::MockPin,
        st7789v::PinFault,
        st7789v::BusFault,
    > = st7789v::ST7789V::new(
        st7789v::MockBus::new(),
        st7789v::MockPin::new(),
        st7789v::MockPin::new(),
    );
    let mut delay = st7789v::MockDelay::new();
    d.color_mode(ColorFormat::RGB262K_CI18Bit, &mut delay).unwrap();
    assert_eq!(delay.recorded(), &vec![10]);
    let (bus, _cfg) = d.release().unwrap();
    assert_eq!(bus.recorded(), &vec![vec![0x3A], vec![0x66]]);
}
