use epd_screen::BusEvent;
use epd_screen::Command;
use epd_screen::Preset;
use epd_screen::Recorder;
use epd_screen::Screen;
use epd_screen::ScreenBuilder;
use epd_screen::ScreenError;
use epd_screen::width_pixels_to_bytes;

fn cmd_string(op: u8, payload: &[u8]) -> Vec<BusEvent> {
    let mut v = vec![
        BusEvent::ChipSelect(false),
        BusEvent::DataCommand(false),
        BusEvent::Transfer(op),
        BusEvent::DataCommand(true),
    ];
    for b in payload {
        v.push(BusEvent::Transfer(*b));
    }
    v.push(BusEvent::ChipSelect(true));
    v
}

fn bare_cmd(op: u8) -> Vec<BusEvent> {
    vec![
        BusEvent::ChipSelect(false),
        BusEvent::DataCommand(false),
        BusEvent::Transfer(op),
        BusEvent::ChipSelect(true),
    ]
}

fn screen_a0() -> Screen<Recorder> {
    ScreenBuilder::preset(Preset::CFAP200200A0_154)
        .new_screen(Recorder::new())
        .unwrap()
}

fn transfers_in(events: &[BusEvent]) -> Vec<u8> {
    events
        .iter()
        .filter_map(|e| match e {
            BusEvent::Transfer(b) => Some(*b),
            _ => None,
        })
        .collect()
}

#[test]
fn byte_width_rounds_up() {
    assert_eq!(width_pixels_to_bytes(200), 25);
    assert_eq!(width_pixels_to_bytes(1), 1);
    assert_eq!(width_pixels_to_bytes(8), 1);
    assert_eq!(width_pixels_to_bytes(9), 2);
    assert_eq!(width_pixels_to_bytes(2040), 255);
}

#[test]
fn construction_sends_documented_init_sequence() {
    let screen = screen_a0();
    let mut expected = vec![
        BusEvent::Reset(false),
        BusEvent::ChipSelect(true),
        BusEvent::DataCommand(true),
        BusEvent::Delay(10),
        BusEvent::Reset(true),
        BusEvent::Delay(10),
    ];
    // gate count minus one: 199 = 0xc7, 9th bit clear, default scan mode
    expected.extend(cmd_string(0x01, &[0xc7, 0x00, 0x00]));
    expected.extend(cmd_string(0x0c, &[0xd7, 0xd6, 0x9d]));
    expected.extend(cmd_string(0x2c, &[0xa8]));
    expected.extend(cmd_string(0x3a, &[0x1a]));
    expected.extend(cmd_string(0x3b, &[0x08]));
    expected.extend(cmd_string(0x11, &[0x01]));
    assert_eq!(screen.transport().log(), &expected);
}

#[test]
fn construction_splits_nine_bit_gate_count() {
    let builder = ScreenBuilder {
        x_size: 16,
        y_size: 300,
        ..ScreenBuilder::preset(Preset::CFAP200200A0_154)
    };
    let screen = builder.new_screen(Recorder::new()).unwrap();
    // gate count minus one: 299 = 0x12b, split into low byte and 9th bit
    let expected = cmd_string(0x01, &[0x2b, 0x01, 0x00]);
    assert_eq!(&screen.transport().log()[6..6 + expected.len()], &expected[..]);
}

#[test]
fn construction_failure_surfaces_transport_error() {
    let mut recorder = Recorder::new();
    recorder.fail_after(2, 0x77);
    let result = ScreenBuilder::preset(Preset::CFAP200200A0_154).new_screen(recorder);
    assert!(matches!(result, Err(0x77)));
}

#[test]
fn presets_declare_same_panel_but_differ_in_calibration() {
    let a = ScreenBuilder::preset(Preset::CFAP200200A0_154);
    let b = ScreenBuilder::preset(Preset::CFAP200200A1_154);
    assert_eq!(a.x_size, 200);
    assert_eq!(a.y_size, 200);
    assert_eq!(b.x_size, 200);
    assert_eq!(b.y_size, 200);
    assert_ne!(a.soft_start, b.soft_start);
    assert_ne!(a.vcom, b.vcom);
    assert_ne!(a.dummy_line, b.dummy_line);
    assert_ne!(a.lut_full, b.lut_full);
    assert_ne!(a.lut_part, b.lut_part);
    assert_eq!(a.gate_line, b.gate_line);
}

#[test]
fn set_display_area_sends_four_frames_in_order() {
    let mut screen = screen_a0();
    let n0 = screen.transport().log().len();
    screen.set_display_area(0, 24, 199, 0).unwrap();
    let mut expected = cmd_string(0x44, &[0, 24]);
    expected.extend(cmd_string(0x45, &[199, 0, 0, 0]));
    expected.extend(cmd_string(0x4e, &[0]));
    expected.extend(cmd_string(0x4f, &[199, 0]));
    assert_eq!(&screen.transport().log()[n0..], &expected[..]);
}

#[test]
fn set_display_area_splits_wide_y_values() {
    let builder = ScreenBuilder {
        x_size: 16,
        y_size: 300,
        ..ScreenBuilder::preset(Preset::CFAP200200A0_154)
    };
    let mut screen = builder.new_screen(Recorder::new()).unwrap();
    let n0 = screen.transport().log().len();
    screen.set_display_area(1, 2, 299, 256).unwrap();
    let mut expected = cmd_string(0x44, &[1, 2]);
    expected.extend(cmd_string(0x45, &[0x2b, 0x01, 0x00, 0x01]));
    expected.extend(cmd_string(0x4e, &[1]));
    expected.extend(cmd_string(0x4f, &[0x2b, 0x01]));
    assert_eq!(&screen.transport().log()[n0..], &expected[..]);
}

#[test]
fn set_display_area_rejects_every_out_of_range_bound() {
    let mut screen = screen_a0();
    let n0 = screen.transport().log().len();
    // byte width is 25 and height is 200; equal bounds still pass
    assert!(screen.set_display_area(25, 25, 200, 200).is_ok());
    let n1 = screen.transport().log().len();
    assert!(n1 > n0);
    assert!(matches!(
        screen.set_display_area(26, 0, 0, 0),
        Err(ScreenError::BoundsError)
    ));
    assert!(matches!(
        screen.set_display_area(0, 26, 0, 0),
        Err(ScreenError::BoundsError)
    ));
    assert!(matches!(
        screen.set_display_area(0, 0, 201, 0),
        Err(ScreenError::BoundsError)
    ));
    assert!(matches!(
        screen.set_display_area(0, 0, 0, 201),
        Err(ScreenError::BoundsError)
    ));
    assert!(matches!(
        screen.set_display_area(26, 26, 201, 201),
        Err(ScreenError::BoundsError)
    ));
    // a rejected call sends nothing
    assert_eq!(screen.transport().log().len(), n1);
}

#[test]
fn transport_failure_halts_command_mid_transfer() {
    // the four set_display_area frames carry 13 bytes in all; a failure
    // injected at each position halts the traffic right there
    for k in 0..13usize {
        let mut screen = screen_a0();
        let n0 = screen.transport().log().len();
        let sent_before = transfers_in(screen.transport().log()).len();
        let mut recorder = Recorder::new();
        recorder.fail_after(sent_before + k, 0x5a);
        // rebuild on a fresh recorder that fails after the init traffic
        let mut screen = ScreenBuilder::preset(Preset::CFAP200200A0_154)
            .new_screen(recorder)
            .unwrap();
        let result = screen.set_display_area(0, 24, 199, 0);
        assert!(matches!(result, Err(ScreenError::SpiError(0x5a))));
        let tail = &screen.transport().log()[n0..];
        // exactly k bytes of this call went out, and the chip was released
        assert_eq!(transfers_in(tail).len(), k);
        assert_eq!(tail.last(), Some(&BusEvent::ChipSelect(true)));
    }
    // one position further and the whole call goes through
    let mut recorder = Recorder::new();
    let init_bytes = transfers_in(screen_a0().transport().log()).len();
    recorder.fail_after(init_bytes + 13, 0x5a);
    let mut screen = ScreenBuilder::preset(Preset::CFAP200200A0_154)
        .new_screen(recorder)
        .unwrap();
    assert!(screen.set_display_area(0, 24, 199, 0).is_ok());
}

#[test]
fn load_full_update_lut_is_idempotent() {
    let mut screen = screen_a0();
    let n0 = screen.transport().log().len();
    screen.load_full_update_lut().unwrap();
    let n1 = screen.transport().log().len();
    screen.load_full_update_lut().unwrap();
    let n2 = screen.transport().log().len();
    let lut = ScreenBuilder::preset(Preset::CFAP200200A0_154).lut_full;
    let expected = cmd_string(0x32, &lut);
    assert_eq!(&screen.transport().log()[n0..n1], &expected[..]);
    assert_eq!(&screen.transport().log()[n1..n2], &expected[..]);
    assert_eq!(
        &screen.transport().log()[n0..n1],
        &screen.transport().log()[n1..n2]
    );
}

#[test]
fn load_partial_update_lut_sends_partial_table() {
    let mut screen = screen_a0();
    let n0 = screen.transport().log().len();
    screen.load_partial_update_lut().unwrap();
    let lut = ScreenBuilder::preset(Preset::CFAP200200A0_154).lut_part;
    let expected = cmd_string(0x32, &lut);
    assert_eq!(&screen.transport().log()[n0..], &expected[..]);
}

#[test]
fn power_and_update_operations_send_documented_masks() {
    let mut screen = screen_a0();
    let n0 = screen.transport().log().len();
    screen.power_on().unwrap();
    screen.update_full().unwrap();
    screen.update_partial().unwrap();
    screen.power_off().unwrap();
    let mut expected = cmd_string(0x22, &[0xc0]);
    expected.extend(bare_cmd(0x20));
    expected.extend(cmd_string(0x22, &[0xc7]));
    expected.extend(bare_cmd(0x20));
    expected.extend(bare_cmd(0xff));
    expected.extend(cmd_string(0x22, &[0x04]));
    expected.extend(bare_cmd(0x20));
    expected.extend(bare_cmd(0xff));
    expected.extend(cmd_string(0x22, &[0xc3]));
    expected.extend(bare_cmd(0x20));
    assert_eq!(&screen.transport().log()[n0..], &expected[..]);
}

#[test]
fn power_on_waits_out_a_busy_controller() {
    let mut recorder = Recorder::new();
    recorder.set_busy_reads(5);
    let mut screen = ScreenBuilder::preset(Preset::CFAP200200A0_154)
        .new_screen(recorder)
        .unwrap();
    let n0 = screen.transport().log().len();
    screen.power_on().unwrap();
    // the busy polls leave no trace on the bus
    let mut expected = cmd_string(0x22, &[0xc0]);
    expected.extend(bare_cmd(0x20));
    assert_eq!(&screen.transport().log()[n0..], &expected[..]);
}

#[test]
fn load_image_streams_buffer_under_one_chip_select() {
    let mut screen = screen_a0();
    let n0 = screen.transport().log().len();
    screen.load_image(&[0xaa, 0x55, 0x0f]).unwrap();
    let expected = cmd_string(0x24, &[0xaa, 0x55, 0x0f]);
    assert_eq!(&screen.transport().log()[n0..], &expected[..]);
}

#[test]
fn show_full_screen_image_rejects_wrong_length() {
    let mut screen = screen_a0();
    let n0 = screen.transport().log().len();
    let short = vec![0u8; 4999];
    assert!(matches!(
        screen.show_full_screen_image(&short),
        Err(ScreenError::LengthError)
    ));
    let long = vec![0u8; 5001];
    assert!(matches!(
        screen.show_full_screen_image(&long),
        Err(ScreenError::LengthError)
    ));
    assert_eq!(screen.transport().log().len(), n0);
}

#[test]
fn show_full_screen_image_runs_the_whole_recipe() {
    let mut screen = screen_a0();
    let n0 = screen.transport().log().len();
    let image = vec![0x3cu8; 25 * 200];
    screen.show_full_screen_image(&image).unwrap();
    let lut = ScreenBuilder::preset(Preset::CFAP200200A0_154).lut_full;
    let mut expected = cmd_string(0x32, &lut);
    expected.extend(cmd_string(0x22, &[0xc0]));
    expected.extend(bare_cmd(0x20));
    expected.extend(cmd_string(0x44, &[0, 24]));
    expected.extend(cmd_string(0x45, &[199, 0, 0, 0]));
    expected.extend(cmd_string(0x4e, &[0]));
    expected.extend(cmd_string(0x4f, &[199, 0]));
    expected.extend(cmd_string(0x24, &image));
    expected.extend(cmd_string(0x22, &[0xc7]));
    expected.extend(bare_cmd(0x20));
    expected.extend(bare_cmd(0xff));
    expected.extend(cmd_string(0x22, &[0xc3]));
    expected.extend(bare_cmd(0x20));
    assert_eq!(&screen.transport().log()[n0..], &expected[..]);
}

#[test]
fn load_partial_image_programs_descending_y_window() {
    let mut screen = screen_a0();
    let n0 = screen.transport().log().len();
    let image = vec![0u8; 100];
    screen.load_partial_image(0, 5, 99, 20, &image).unwrap();
    let mut expected = cmd_string(0x44, &[0, 4]);
    expected.extend(cmd_string(0x45, &[99, 0, 80, 0]));
    expected.extend(cmd_string(0x4e, &[0]));
    expected.extend(cmd_string(0x4f, &[99, 0]));
    expected.extend(cmd_string(0x24, &image));
    assert_eq!(&screen.transport().log()[n0..], &expected[..]);
}

#[test]
fn load_partial_image_rejects_wrong_length() {
    let mut screen = screen_a0();
    let n0 = screen.transport().log().len();
    let image = vec![0u8; 99];
    assert!(matches!(
        screen.load_partial_image(0, 5, 99, 20, &image),
        Err(ScreenError::LengthError)
    ));
    assert_eq!(screen.transport().log().len(), n0);
}

#[test]
fn load_partial_image_rejects_window_past_panel_edge() {
    let mut screen = screen_a0();
    let n0 = screen.transport().log().len();
    // x window 24..=26 runs past byte width 25
    let image = vec![0u8; 3 * 10];
    assert!(matches!(
        screen.load_partial_image(24, 3, 9, 10, &image),
        Err(ScreenError::BoundsError)
    ));
    assert_eq!(screen.transport().log().len(), n0);
}

#[test]
fn write_cmd_sends_one_command_byte() {
    let mut screen = screen_a0();
    let n0 = screen.transport().log().len();
    screen.write_cmd(Command::SwReset).unwrap();
    assert_eq!(&screen.transport().log()[n0..], &bare_cmd(0x12)[..]);
}

#[test]
fn write_data_sends_one_data_byte() {
    let mut screen = screen_a0();
    let n0 = screen.transport().log().len();
    screen.write_data(0xab).unwrap();
    let expected = vec![
        BusEvent::ChipSelect(false),
        BusEvent::DataCommand(true),
        BusEvent::Transfer(0xab),
        BusEvent::ChipSelect(true),
    ];
    assert_eq!(&screen.transport().log()[n0..], &expected[..]);
}

#[test]
fn write_cmd_string_failure_releases_chip_select() {
    let init_bytes = transfers_in(screen_a0().transport().log()).len();
    let mut recorder = Recorder::new();
    // the opcode goes out, the first payload byte fails
    recorder.fail_after(init_bytes + 1, 0x09);
    let mut screen = ScreenBuilder::preset(Preset::CFAP200200A0_154)
        .new_screen(recorder)
        .unwrap();
    let n0 = screen.transport().log().len();
    let result = screen.write_cmd_string(Command::DeepSleepMode, &[0x01, 0x02]);
    assert!(matches!(result, Err(0x09)));
    let expected = vec![
        BusEvent::ChipSelect(false),
        BusEvent::DataCommand(false),
        BusEvent::Transfer(0x10),
        BusEvent::DataCommand(true),
        BusEvent::ChipSelect(true),
    ];
    assert_eq!(&screen.transport().log()[n0..], &expected[..]);
}

#[test]
fn load_image_waits_out_a_busy_controller() {
    let mut recorder = Recorder::new();
    recorder.set_busy_reads(4);
    let mut screen = ScreenBuilder::preset(Preset::CFAP200200A0_154)
        .new_screen(recorder)
        .unwrap();
    let n0 = screen.transport().log().len();
    screen.load_image(&[0x01, 0x02]).unwrap();
    // the busy polls leave no trace on the bus
    let expected = cmd_string(0x24, &[0x01, 0x02]);
    assert_eq!(&screen.transport().log()[n0..], &expected[..]);
}

#[test]
fn screen_error_wraps_transport_error_unchanged() {
    let wrapped: ScreenError<u8> = ScreenError::from(0x42u8);
    assert!(matches!(wrapped, ScreenError::SpiError(0x42)));
}
