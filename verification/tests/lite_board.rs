use papermono::lite::display::{PageRotation, RefreshMode};
use papermono::lite::imu::Orientation;
use papermono::lite::profile::BoardModel;
use papermono::lite::{addresses, buzzer, display, imu, ioe1, pins, pmic, rtc, touch};
use papermono::m5ioe1::{pin_bit, Bank};

#[test]
fn system_bus_addresses_are_distinct() {
    let mut addresses = [
        addresses::FT6336G,
        addresses::RX8130CE,
        addresses::BMI270,
        addresses::M5PM1,
        addresses::M5IOE1,
        addresses::IP2315,
    ];
    addresses.sort_unstable();
    for pair in addresses.windows(2) {
        assert_ne!(pair[0], pair[1]);
    }
}

#[test]
fn ioe1_board_address_is_not_the_chip_um_base() {
    assert_eq!(addresses::M5IOE1_UM, 0x6F);
    assert_ne!(addresses::M5IOE1, addresses::M5IOE1_UM);
    assert_ne!(addresses::M5IOE1_UM, addresses::IP2315);
}

#[test]
fn leftover_nfc_address_is_sheet_50h() {
    assert_eq!(addresses::ST25R3916_LEFTOVER, 0x50);
    assert_eq!(addresses::ST25R3916_LEFTOVER_DEVICE_ID, 0x00);
    assert_ne!(addresses::ST25R3916_LEFTOVER_DEVICE_ID, 0x7F);
}

#[test]
fn factory_demo_ledc_window() {
    assert!(buzzer::BEEP_HZ >= 40 && buzzer::BEEP_HZ <= 12_000);
    assert!(buzzer::TIMER == 3 && buzzer::CHANNEL == 7 && buzzer::DUTY_BITS == 10);
    assert!(buzzer::DUTY_PCT == 50 && buzzer::DUTY_MAX_PCT == 25 && buzzer::BEEP_MS > 0);
}

#[test]
fn volume_to_duty_pct_mapping() {
    assert_eq!(buzzer::volume_to_duty_pct(0), 0);
    assert_eq!(buzzer::volume_to_duty_pct(50), 12);
    assert_eq!(buzzer::volume_to_duty_pct(100), 25);
    assert_eq!(buzzer::volume_to_duty_pct(150), 25);
}

#[test]
fn volume_scales_below_full_and_rounds_down() {
    assert_eq!(buzzer::volume_to_duty_pct(1), 0);
    assert_eq!(buzzer::volume_to_duty_pct(4), 1);
    assert_eq!(buzzer::volume_to_duty_pct(99), 24);
    assert_eq!(buzzer::volume_to_duty_pct(255), 25);
}

#[test]
fn official_geometry_is_portrait_tables() {
    assert_eq!(display::WIDTH, 480);
    assert_eq!(display::HEIGHT, 800);
    assert_eq!(display::BYTES_PER_ROW, 60);
    assert_eq!(display::PLANE_BYTES, display::OTP_PLANE_BYTES);
    assert!(display::WIDTH < display::HEIGHT);
    assert!(display::WIDTH % 8 == 0);
}

#[test]
fn quality_is_slower_than_fastest() {
    assert!(
        RefreshMode::EpdQuality.lab_duration().as_millis()
            > RefreshMode::EpdText.lab_duration().as_millis()
    );
    assert!(
        RefreshMode::EpdText.lab_duration().as_millis()
            > RefreshMode::EpdFast.lab_duration().as_millis()
    );
    assert!(
        RefreshMode::EpdFast.lab_duration().as_millis()
            > RefreshMode::EpdFastest.lab_duration().as_millis()
    );
}

#[test]
fn lite_usb_down_corner_bars() {
    assert_eq!(display::otp_ram_to_usb_down(799, 0), (0, 799));
    assert_eq!(display::otp_ram_to_usb_down(0, 0), (0, 0));
    assert_eq!(display::otp_ram_to_usb_down(799, 479), (479, 799));
    assert_eq!(display::otp_ram_to_usb_down(0, 479), (479, 0));
    assert_eq!(display::usb_down_to_otp_ram(0, 799), (799, 0));
    assert_eq!(RefreshMode::EpdText.title(), "epd_text");
    assert_eq!(display::OTP_TARGET_TITLE, "otp_target");
    assert!(display::PARTIALS_BEFORE_FULL > 0);
}

#[test]
fn usb_down_map_round_trips_on_interior_points() {
    for (x, y) in [(17u16, 233u16), (479, 0), (240, 400), (0, 0)] {
        let (rx, ry) = display::usb_down_to_otp_ram(x, y);
        assert_eq!(display::otp_ram_to_usb_down(rx, ry), (x, y));
    }
}

#[test]
fn refresh_titles_and_durations() {
    assert_eq!(RefreshMode::EpdQuality.title(), "epd_quality");
    assert_eq!(RefreshMode::EpdFast.title(), "epd_fast");
    assert_eq!(RefreshMode::EpdFastest.title(), "epd_fastest");
    assert!(RefreshMode::EpdFastest.lab_duration().as_millis() > 0);
}

const ONE_G: i16 = 16_384;

#[test]
fn chip_id_register_is_not_the_payload() {
    assert_eq!(imu::ADDRESS, addresses::BMI270);
    assert_eq!(imu::CHIP_ID, 0x00);
    assert_eq!(imu::CHIP_ID_VALUE, 0x24);
    assert_ne!(imu::CHIP_ID, imu::CHIP_ID_VALUE);
    assert_eq!(imu::INTERNAL_STATUS, 0x21);
}

#[test]
fn threshold_matches_sticky_figure() {
    assert_eq!(imu::DOMINANT_AXIS_THRESHOLD_LSB, 11_468);
}

#[test]
fn each_axis_maps_to_the_enclosure_pose() {
    assert_eq!(imu::classify(-ONE_G, 0, 0), Some(Orientation::Portrait0));
    assert_eq!(imu::classify(ONE_G, 0, 0), Some(Orientation::Portrait180));
    assert_eq!(imu::classify(0, ONE_G, 0), Some(Orientation::Landscape0));
    assert_eq!(imu::classify(0, -ONE_G, 0), Some(Orientation::Landscape180));
    assert_eq!(imu::classify(0, 0, ONE_G), Some(Orientation::FaceUp));
    assert_eq!(imu::classify(0, 0, -ONE_G), Some(Orientation::FaceDown));
}

#[test]
fn ambiguous_sample_is_unknown() {
    let component = (0.6 * f32::from(ONE_G)) as i16;
    assert_eq!(imu::classify(component, component, 0), None);
    assert_eq!(imu::classify(0, 0, 0), None);
}

#[test]
fn face_up_is_not_confused_with_portrait() {
    let noise = 1_000;
    assert_eq!(imu::classify(noise, noise, ONE_G), Some(Orientation::FaceUp));
}

#[test]
fn only_in_plane_poses_have_a_page_rotation() {
    assert_eq!(Orientation::Portrait0.page_rotation(), Some(PageRotation::Portrait0));
    assert_eq!(Orientation::FaceUp.page_rotation(), None);
}

#[test]
fn classify_threshold_is_inclusive_and_extremes_do_not_overflow() {
    assert_eq!(imu::classify(-11_467, 0, 0), None);
    assert_eq!(imu::classify(-11_468, 0, 0), Some(Orientation::Portrait0));
    assert_eq!(imu::classify(i16::MIN, 0, 0), Some(Orientation::Portrait0));
    assert_eq!(imu::classify(0, 0, i16::MIN), Some(Orientation::FaceDown));
    assert_eq!(Orientation::FaceDown.page_rotation(), None);
    assert_eq!(Orientation::Landscape180.page_rotation(), Some(PageRotation::Landscape180));
}

#[test]
fn assigned_expander_pins_are_unique() {
    let mut seen = [false; 16];
    for &pin in ioe1::ASSIGNED.iter() {
        assert!(!seen[pin as usize], "PYG{pin} is assigned twice");
        seen[pin as usize] = true;
    }
}

#[test]
fn radio_expander_pins_are_not_assigned_here() {
    for assigned in ioe1::ASSIGNED.iter() {
        assert_ne!(*assigned, 2, "LoRa antenna switch is full-SKU only");
        assert_ne!(*assigned, 4, "NFC enable is full-SKU only");
        assert_ne!(*assigned, 10, "LoRa reset is full-SKU only");
    }
}

#[test]
fn pyg11_is_ip2315_gate() {
    assert_eq!(pin_bit(ioe1::IP2315_I2C_GATE), Some((Bank::High, 2)));
    assert_eq!(pin_bit(ioe1::EPD_VDD_ENABLE), Some((Bank::Low, 2)));
}

#[test]
fn sku_is_lite() {
    assert_eq!(papermono::lite::SKU, "C153-Lite");
}

#[test]
fn radio_gpios_are_not_assigned_here() {
    for &assigned in pins::ASSIGNED.iter() {
        assert_ne!(assigned, 5, "LoRa IRQ is full-SKU only");
        assert_ne!(assigned, 6, "NFC IRQ is full-SKU only");
        assert_ne!(assigned, 21, "SX1262 BUSY is full-SKU only");
        assert_ne!(assigned, 38, "LoRa MOSI is full-SKU only");
        assert_ne!(assigned, 39, "LoRa CLK is full-SKU only");
        assert_ne!(assigned, 40, "LoRa MISO is full-SKU only");
        assert_ne!(assigned, 41, "SX1262 NSS is full-SKU only");
    }
}

#[test]
fn assigned_pins_are_unique() {
    let mut seen = [false; 49];
    for &pin in pins::ASSIGNED.iter() {
        assert!((pin as usize) < seen.len(), "GPIO {pin} is outside the S3 range this map uses");
        assert!(!seen[pin as usize], "GPIO {pin} is assigned twice");
        seen[pin as usize] = true;
    }
}

#[test]
fn strapping_pins_are_not_on_spi2_or_sdmmc() {
    for bus in [
        pins::EPD_MOSI,
        pins::EPD_SCLK,
        pins::EPD_CS,
        pins::EPD_DC,
        pins::SDMMC_DAT3,
        pins::SDMMC_DAT2,
        pins::SDMMC_DAT1,
        pins::SDMMC_DAT0,
        pins::SDMMC_CMD,
        pins::SDMMC_CLK,
    ] {
        assert_ne!(bus, pins::PMIC_BOOT_OUT);
        assert_ne!(bus, pins::KEY2);
        assert_ne!(bus, pins::PDM_CLK);
        assert_ne!(bus, pins::PDM_DAT);
    }
}

#[test]
fn pdm_is_not_on_the_usb_pads() {
    assert_ne!(pins::PDM_CLK, pins::USB_DM);
    assert_ne!(pins::PDM_DAT, pins::USB_DP);
    assert_eq!(pins::PDM_CLK, 45);
    assert_eq!(pins::PDM_DAT, 46);
}

#[test]
fn numbered_pmic_gpios_are_distinct() {
    assert_ne!(pmic::WAKE_RTC_INT, pmic::FRONTLIGHT_PWM);
    assert_ne!(pmic::WAKE_RTC_INT, pmic::WAKE_IMU_INT);
    assert_ne!(pmic::FRONTLIGHT_PWM, pmic::WAKE_IMU_INT);
    assert_eq!(pmic::FRONTLIGHT_PWM, 3);
}

#[test]
fn lora_enable_is_not_a_lite_pmic_net() {
    assert_ne!(pmic::WAKE_RTC_INT, 2);
    assert_ne!(pmic::FRONTLIGHT_PWM, 2);
    assert_ne!(pmic::WAKE_IMU_INT, 2);
}

#[test]
fn model_properties() {
    let full = BoardModel::PaperMono;
    assert_eq!(full.sku(), "C153");
    assert_eq!(full.name(), "PaperMono");
    assert!(full.has_nfc());
    assert!(full.has_lora());
    assert!(full.has_radios());
    assert_eq!(full.to_u8(), 2);
    assert_eq!(BoardModel::from_u8(2), Some(full));

    let lite = BoardModel::PaperMonoLite;
    assert_eq!(lite.sku(), "C153-Lite");
    assert_eq!(lite.name(), "PaperMono-Lite");
    assert!(!lite.has_nfc());
    assert!(!lite.has_lora());
    assert!(!lite.has_radios());
    assert_eq!(lite.to_u8(), 1);
    assert_eq!(BoardModel::from_u8(1), Some(lite));

    assert_eq!(BoardModel::from_u8(0), None);
    assert_eq!(BoardModel::from_u8(3), None);
}

#[test]
fn model_code_round_trips() {
    for v in 0u8..=255 {
        if let Some(m) = BoardModel::from_u8(v) {
            assert_eq!(m.to_u8(), v);
        }
    }
}

#[test]
fn flag_is_not_sec() {
    assert_eq!(rtc::ADDRESS, addresses::RX8130CE);
    assert_ne!(rtc::FLAG, 0x10);
    assert_eq!(rtc::TIMER_COUNTER_L, 0x1A);
    assert_eq!(rtc::EXTENSION, 0x1C);
    assert_eq!(rtc::CONTROL, 0x1E);
    assert_ne!(rtc::USER_RAM_MARK, rtc::FLAG);
    assert_eq!(rtc::TIMER_10S_COUNTS, 640);
    assert_eq!(rtc::FLAG_CLEAR_IRQ, 0xA7);
    assert_eq!(rtc::FLAG_IRQ, 0x18);
}

#[test]
fn active_area_fits_official_panel() {
    assert!(touch::ACTIVE_MIN_X < touch::ACTIVE_MAX_X);
    assert!(touch::ACTIVE_MIN_Y < touch::ACTIVE_MAX_Y);
    assert!(touch::ACTIVE_MAX_X <= display::WIDTH);
    assert!(touch::ACTIVE_MAX_Y <= display::HEIGHT);
    assert!(touch::SLIDER_INSET_PX > touch::ACTIVE_MIN_Y);
    assert!(touch::ACTIVE_MAX_Y > display::HEIGHT - touch::SLIDER_INSET_PX);
}

#[test]
fn address_matches_the_system_bus_table() {
    assert_eq!(touch::ADDRESS, addresses::FT6336G);
    assert_eq!(touch::MAX_POINTS, 2);
    assert_eq!(touch::M5GFX_STATUS_REG, 2);
    assert!(touch::TARGET_RADIUS_PX < touch::TARGET_SLOP_PX);
    assert!(touch::ACTIVE_MIN_X + touch::SLIDE_END_INSET < touch::ACTIVE_MAX_X - touch::SLIDE_END_INSET);
    assert!(touch::ACTIVE_MIN_Y + touch::SLIDE_END_INSET < touch::ACTIVE_MAX_Y - touch::SLIDE_END_INSET);
    assert!(touch::in_lamp_gutter(touch::ACTIVE_MAX_X));
    assert!(!touch::in_lamp_gutter(touch::ACTIVE_MAX_X.saturating_sub(touch::LAMP_GUTTER_PX + 1)));
    assert!(touch::LAMP_DUTY_PER_PX == 8);
    assert!(touch::in_lamp_gutter(400));
}

#[test]
fn page_gutter_boundaries() {
    assert!(touch::in_page_left_gutter(0));
    assert!(touch::in_page_left_gutter(80));
    assert!(!touch::in_page_left_gutter(81));
    assert!(!touch::in_page_right_gutter(399, 480));
    assert!(touch::in_page_right_gutter(400, 480));
    assert!(touch::in_page_right_gutter(479, 480));

    assert!(touch::in_page_left_gutter(0));
    assert!(touch::in_page_left_gutter(80));
    assert!(!touch::in_page_left_gutter(81));
    assert!(!touch::in_page_right_gutter(719, 800));
    assert!(touch::in_page_right_gutter(720, 800));
    assert!(touch::in_page_right_gutter(799, 800));
}

#[test]
fn right_gutter_on_a_narrow_page_covers_everything() {
    assert!(touch::in_page_right_gutter(0, 40));
    assert!(touch::in_page_right_gutter(0, 80));
    assert!(!touch::in_lamp_gutter(0));
}

#[test]
fn m5gfx_one_and_two_points() {
    let one = [1, 0x00, 240, 0x01, 144];
    assert_eq!(touch::decode_m5gfx(&one), Some((1, 240, 400, 0, 0)));
    let mut two = [0u8; 11];
    two[0] = 2;
    two[1] = 0x00;
    two[2] = 80;
    two[3] = 0x00;
    two[4] = 80;
    two[7] = 0x01;
    two[8] = 144;
    two[9] = 0x02;
    two[10] = 208;
    assert_eq!(touch::decode_m5gfx(&two), Some((2, 80, 80, 400, 720)));

    let floating = [0xFF; 13];
    assert_eq!(touch::decode_m5gfx(&floating), Some((0, 0, 0, 0, 0)));

    let lift = [1, 0x40, 240, 0x01, 144];
    assert_eq!(touch::decode_m5gfx(&lift), Some((0, 0, 0, 0, 0)));

    let no_event = [1, 0xC0, 240, 0x01, 144];
    assert_eq!(touch::decode_m5gfx(&no_event), Some((0, 0, 0, 0, 0)));

    let oob = [1, 0x0F, 0xFF, 0x0F, 0xFF];
    assert_eq!(touch::decode_m5gfx(&oob), Some((0, 0, 0, 0, 0)));
}

#[test]
fn m5gfx_empty_buffer_is_none_and_short_point_is_no_touch() {
    assert_eq!(touch::decode_m5gfx(&[]), None);
    assert_eq!(touch::decode_m5gfx(&[1, 0, 240, 1]), Some((0, 0, 0, 0, 0)));
    assert_eq!(touch::decode_m5gfx(&[3]), Some((0, 0, 0, 0, 0)));
}
