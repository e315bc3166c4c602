use st7789v::BusFault;
use st7789v::Error;
use st7789v::MockBus;
use st7789v::MockDelay;
use st7789v::MockPin;
use st7789v::PinFault;
use st7789v::PinLevel;
use st7789v::ST7789V;

type TestDriver = ST7789V<MockBus, MockPin, MockPin, MockPin, PinFault, BusFault>;

fn new_driver() -> TestDriver {
    ST7789V::new(MockBus::new(), MockPin::new(), MockPin::new())
}

fn into_logs(d: TestDriver) -> (Vec<Vec<u8>>, Vec<PinLevel>, Vec<PinLevel>) {
    let (bus, cfg) = d.release().unwrap();
    let (dc, rst) = cfg.release();
    (
        bus.recorded().clone(),
        dc.recorded().clone(),
        rst.recorded().clone(),
    )
}

#[test]
fn column_address_emits_big_endian_window() {
    let mut d = new_driver();
    d.column_address(5, 300).unwrap();
    let (bus, dc, _) = into_logs(d);
    assert_eq!(bus, vec![vec![0x2A], vec![0x00, 0x05, 0x01, 0x2C]]);
    assert_eq!(dc, vec![PinLevel::Low, PinLevel::High]);
}

#[test]
fn row_address_emits_big_endian_window() {
    let mut d = new_driver();
    d.row_address(1, 2).unwrap();
    let (bus, _, _) = into_logs(d);
    assert_eq!(bus, vec![vec![0x2B], vec![0x00, 0x01, 0x00, 0x02]]);
}

#[test]
fn column_address_accepts_equal_start_and_end() {
    let mut d = new_driver();
    d.column_address(7, 7).unwrap();
    let (bus, _, _) = into_logs(d);
    assert_eq!(bus, vec![vec![0x2A], vec![0x00, 0x07, 0x00, 0x07]]);
}

#[test]
fn column_address_accepts_largest_addresses() {
    let mut d = new_driver();
    d.column_address(0xFFFF, 0xFFFF).unwrap();
    let (bus, _, _) = into_logs(d);
    assert_eq!(bus, vec![vec![0x2A], vec![0xFF, 0xFF, 0xFF, 0xFF]]);
}

#[test]
fn column_address_rejects_start_after_end_without_traffic() {
    let mut d = new_driver();
    let r = d.column_address(5, 4);
    assert!(matches!(r, Err(Error::InvalidColumnAddress)));
    let (bus, dc, _) = into_logs(d);
    assert!(bus.is_empty());
    assert!(dc.is_empty());
}

#[test]
fn row_address_rejects_start_after_end_without_traffic() {
    let mut d = new_driver();
    let r = d.row_address(0xFFFF, 0);
    assert!(matches!(r, Err(Error::InvalidRowAddress)));
    let (bus, dc, _) = into_logs(d);
    assert!(bus.is_empty());
    assert!(dc.is_empty());
}

#[test]
fn address_window_sets_column_then_row() {
    let mut d = new_driver();
    d.address_window(1, 2, 3, 4).unwrap();
    let (bus, _, _) = into_logs(d);
    assert_eq!(
        bus,
        vec![
            vec![0x2A],
            vec![0x00, 0x01, 0x00, 0x03],
            vec![0x2B],
            vec![0x00, 0x02, 0x00, 0x04],
        ]
    );
}

#[test]
fn address_window_bad_row_fails_after_column_leg() {
    let mut d = new_driver();
    let r = d.address_window(1, 9, 3, 4);
    assert!(matches!(r, Err(Error::InvalidRowAddress)));
    let (bus, _, _) = into_logs(d);
    assert_eq!(bus, vec![vec![0x2A], vec![0x00, 0x01, 0x00, 0x03]]);
}

#[test]
fn address_window_bad_column_fails_without_traffic() {
    let mut d = new_driver();
    let r = d.address_window(4, 0, 3, 9);
    assert!(matches!(r, Err(Error::InvalidColumnAddress)));
    let (bus, _, _) = into_logs(d);
    assert!(bus.is_empty());
}

#[test]
fn pixel_equals_window_then_mem_write() {
    let mut via_pixel = new_driver();
    via_pixel.pixel(3, 7, 0x1234).unwrap();
    let (bus_a, dc_a, _) = into_logs(via_pixel);

    let mut via_steps = new_driver();
    via_steps.address_window(3, 7, 3, 7).unwrap();
    via_steps.mem_write(&[0x12, 0x34]).unwrap();
    let (bus_b, dc_b, _) = into_logs(via_steps);

    assert_eq!(bus_a, bus_b);
    assert_eq!(dc_a, dc_b);
}

#[test]
fn pixel_emits_window_parameters_and_color_bytes() {
    let mut d = new_driver();
    d.pixel(10, 20, 0xF800).unwrap();
    let (bus, _, _) = into_logs(d);
    assert_eq!(
        bus,
        vec![
            vec![0x2A],
            vec![0x00, 0x0A, 0x00, 0x0A],
            vec![0x2B],
            vec![0x00, 0x14, 0x00, 0x14],
            vec![0x2C],
            vec![0xF8, 0x00],
        ]
    );
}

#[test]
fn pixels_streams_one_data_phase_per_color_in_order() {
    let mut d = new_driver();
    let colors: [u16; 4] = [0x0001, 0xABCD, 0xFFFF, 0x1000];
    d.pixels(0, 0, 1, 1, &colors).unwrap();
    let (bus, dc, _) = into_logs(d);
    assert_eq!(
        bus,
        vec![
            vec![0x2A],
            vec![0x00, 0x00, 0x00, 0x01],
            vec![0x2B],
            vec![0x00, 0x00, 0x00, 0x01],
            vec![0x2C],
            vec![],
            vec![0x00, 0x01],
            vec![0xAB, 0xCD],
            vec![0xFF, 0xFF],
            vec![0x10, 0x00],
        ]
    );
    assert_eq!(
        dc,
        vec![
            PinLevel::Low,
            PinLevel::High,
            PinLevel::Low,
            PinLevel::High,
            PinLevel::Low,
            PinLevel::High,
            PinLevel::High,
            PinLevel::High,
            PinLevel::High,
            PinLevel::High,
        ]
    );
}

#[test]
fn pixels_with_no_colors_only_opens_the_window() {
    let mut d = new_driver();
    let colors: [u16; 0] = [];
    d.pixels(2, 2, 2, 2, &colors).unwrap();
    let (bus, _, _) = into_logs(d);
    assert_eq!(
        bus,
        vec![
            vec![0x2A],
            vec![0x00, 0x02, 0x00, 0x02],
            vec![0x2B],
            vec![0x00, 0x02, 0x00, 0x02],
            vec![0x2C],
            vec![],
        ]
    );
}

#[test]
fn pixels_rejects_bad_rows_after_column_leg() {
    let mut d = new_driver();
    let colors: [u16; 1] = [0x0F0F];
    let r = d.pixels(0, 5, 1, 4, &colors);
    assert!(matches!(r, Err(Error::InvalidRowAddress)));
    let (bus, _, _) = into_logs(d);
    assert_eq!(bus, vec![vec![0x2A], vec![0x00, 0x00, 0x00, 0x01]]);
}

#[test]
fn pixels_aborts_mid_stream_on_bus_failure() {
    let bus = MockBus::failing_after(7);
    let mut d: TestDriver = ST7789V::new(bus, MockPin::new(), MockPin::new());
    let colors: [u16; 3] = [0x1111, 0x2222, 0x3333];
    let r = d.pixels(0, 0, 2, 0, &colors);
    assert!(matches!(r, Err(Error::Spi(BusFault))));
    let (bus, _, _) = into_logs(d);
    assert_eq!(
        bus,
        vec![
            vec![0x2A],
            vec![0x00, 0x00, 0x00, 0x02],
            vec![0x2B],
            vec![0x00, 0x00, 0x00, 0x00],
            vec![0x2C],
            vec![],
            vec![0x11, 0x11],
        ]
    );
}

#[test]
fn mem_write_frames_payload_as_data_phase() {
    let mut d = new_driver();
    d.mem_write(&[1, 2, 3]).unwrap();
    let (bus, dc, _) = into_logs(d);
    assert_eq!(bus, vec![vec![0x2C], vec![1, 2, 3]]);
    assert_eq!(dc, vec![PinLevel::Low, PinLevel::High]);
}

#[test]
fn hard_reset_toggles_reset_pin_with_mandatory_delays() {
    let mut d = new_driver();
    let mut delay = MockDelay::new();
    d.hard_reset(&mut delay).unwrap();
    assert_eq!(delay.recorded(), &vec![1, 1, 120]);
    let (bus, dc, rst) = into_logs(d);
    assert!(bus.is_empty());
    assert!(dc.is_empty());
    assert_eq!(rst, vec![PinLevel::High, PinLevel::Low, PinLevel::High]);
}

#[test]
fn hard_reset_pin_failure_aborts_before_any_bus_opcode() {
    let rst = MockPin::failing_after(0);
    let mut d: TestDriver = ST7789V::new(MockBus::new(), MockPin::new(), rst);
    let mut delay = MockDelay::new();
    let r = d.hard_reset(&mut delay);
    assert!(matches!(r, Err(Error::Pin(PinFault))));
    assert!(delay.recorded().is_empty());
    let (bus, _, rst) = into_logs(d);
    assert!(bus.is_empty());
    assert!(rst.is_empty());
}

#[test]
fn hard_reset_mid_sequence_pin_failure_keeps_bus_silent() {
    let rst = MockPin::failing_after(2);
    let mut d: TestDriver = ST7789V::new(MockBus::new(), MockPin::new(), rst);
    let mut delay = MockDelay::new();
    let r = d.hard_reset(&mut delay);
    assert!(matches!(r, Err(Error::Pin(PinFault))));
    assert_eq!(delay.recorded(), &vec![1, 1]);
    let (bus, _, rst) = into_logs(d);
    assert!(bus.is_empty());
    assert_eq!(rst, vec![PinLevel::High, PinLevel::Low]);
}

#[test]
fn soft_reset_sends_opcode_then_settles() {
    let mut d = new_driver();
    let mut delay = MockDelay::new();
    d.soft_reset(&mut delay).unwrap();
    assert_eq!(delay.recorded(), &vec![150]);
    let (bus, _, _) = into_logs(d);
    assert_eq!(bus, vec![vec![0x01]]);
}

#[test]
fn sleep_transitions_use_asymmetric_delays() {
    let mut d = new_driver();
    let mut delay = MockDelay::new();
    d.sleep_in(&mut delay).unwrap();
    d.sleep_out(&mut delay).unwrap();
    assert_eq!(delay.recorded(), &vec![5, 500]);
    let (bus, _, _) = into_logs(d);
    assert_eq!(bus, vec![vec![0x10], vec![0x11]]);
}

#[test]
fn mode_toggles_send_fixed_opcodes_without_parameters() {
    let mut d = new_driver();
    d.partial_display_mode().unwrap();
    d.normal_mode().unwrap();
    d.inversion_on().unwrap();
    d.inversion_off().unwrap();
    d.display_on().unwrap();
    d.display_off().unwrap();
    d.idle_on().unwrap();
    d.idle_off().unwrap();
    let (bus, dc, _) = into_logs(d);
    assert_eq!(
        bus,
        vec![
            vec![0x12],
            vec![0x13],
            vec![0x21],
            vec![0x20],
            vec![0x29],
            vec![0x28],
            vec![0x39],
            vec![0x38],
        ]
    );
    assert_eq!(dc, vec![PinLevel::Low; 8]);
}

#[test]
fn display_on_surfaces_bus_failure_as_spi_error() {
    let bus = MockBus::failing_after(0);
    let mut d: TestDriver = ST7789V::new(bus, MockPin::new(), MockPin::new());
    let r = d.display_on();
    assert!(matches!(r, Err(Error::Spi(BusFault))));
    let (bus, _, _) = into_logs(d);
    assert!(bus.is_empty());
}

#[test]
fn display_on_surfaces_pin_failure_as_pin_error() {
    let dc = MockPin::failing_after(0);
    let mut d: TestDriver = ST7789V::new(MockBus::new(), dc, MockPin::new());
    let r = d.display_on();
    assert!(matches!(r, Err(Error::Pin(PinFault))));
    let (bus, _, _) = into_logs(d);
    assert!(bus.is_empty());
}

#[test]
fn init_brings_up_a_240_by_240_panel_in_order() {
    let mut d = new_driver();
    let mut delay = MockDelay::new();
    d.init(&mut delay).unwrap();
    assert_eq!(delay.recorded(), &vec![1, 1, 120, 150, 500, 10]);
    let (bus, dc, rst) = into_logs(d);
    assert_eq!(rst, vec![PinLevel::High, PinLevel::Low, PinLevel::High]);
    assert_eq!(
        bus,
        vec![
            vec![0x01],
            vec![0x11],
            vec![0x3A],
            vec![0x55],
            vec![0x36],
            vec![0x00],
            vec![0x2A],
            vec![0x00, 0x00, 0x00, 0xF0],
            vec![0x2B],
            vec![0x00, 0x00, 0x00, 0xF0],
            vec![0x21],
            vec![0x13],
            vec![0x29],
        ]
    );
    assert_eq!(
        dc,
        vec![
            PinLevel::Low,
            PinLevel::Low,
            PinLevel::Low,
            PinLevel::High,
            PinLevel::Low,
            PinLevel::High,
            PinLevel::Low,
            PinLevel::High,
            PinLevel::Low,
            PinLevel::High,
            PinLevel::Low,
            PinLevel::Low,
            PinLevel::Low,
        ]
    );
}

#[test]
fn init_aborts_on_reset_pin_failure_before_any_opcode() {
    let rst = MockPin::failing_after(0);
    let mut d: TestDriver = ST7789V::new(MockBus::new(), MockPin::new(), rst);
    let mut delay = MockDelay::new();
    let r = d.init(&mut delay);
    assert!(matches!(r, Err(Error::Pin(PinFault))));
    let (bus, _, _) = into_logs(d);
    assert!(bus.is_empty());
}

#[test]
fn init_aborts_after_failed_bus_write_mid_sequence() {
    let bus = MockBus::failing_after(2);
    let mut d: TestDriver = ST7789V::new(bus, MockPin::new(), MockPin::new());
    let mut delay = MockDelay::new();
    let r = d.init(&mut delay);
    assert!(matches!(r, Err(Error::Spi(BusFault))));
    assert_eq!(delay.recorded(), &vec![1, 1, 120, 150, 500]);
    let (bus, _, _) = into_logs(d);
    assert_eq!(bus, vec![vec![0x01], vec![0x11]]);
}

#[test]
fn with_cs_lowers_chip_select_and_release_raises_it() {
    let bus = MockBus::new();
    let cs = MockPin::new();
    let d: TestDriver = ST7789V::with_cs(bus, cs, MockPin::new(), MockPin::new()).unwrap();
    let (bus, _cfg) = d.release().unwrap();
    assert!(bus.recorded().is_empty());
}

#[test]
fn with_cs_surfaces_chip_select_failure() {
    let cs = MockPin::failing_after(0);
    let r: Result<TestDriver, _> =
        ST7789V::with_cs(MockBus::new(), cs, MockPin::new(), MockPin::new());
    assert!(matches!(r, Err(Error::Pin(PinFault))));
}

#[test]
fn with_config_without_chip_select_touches_no_pin() {
    let cfg = st7789v::ST7789VConfig::new(MockPin::new(), MockPin::new());
    let d: TestDriver = ST7789V::with_config(MockBus::new(), cfg).unwrap();
    let (_, cfg) = d.release().unwrap();
    let (dc, rst) = cfg.release();
    assert!(dc.recorded().is_empty());
    assert!(rst.recorded().is_empty());
}

#[test]
fn with_config_lowers_a_configured_chip_select() {
    let cfg = st7789v::ST7789VConfig::with_cs(MockPin::new(), MockPin::new(), MockPin::new());
    let d: TestDriver = ST7789V::with_config(MockBus::new(), cfg).unwrap();
    drop(d);
}

#[test]
fn release_surfaces_chip_select_failure() {
    let cs = MockPin::failing_after(1);
    let d: TestDriver =
        ST7789V::with_cs(MockBus::new(), cs, MockPin::new(), MockPin::new()).unwrap();
    let r = d.release();
    assert!(matches!(r, Err(Error::Pin(PinFault))));
}
