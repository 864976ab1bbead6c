use papermono::log::{BLE_CAPACITY, BUTTON_HOLD_PCM_MS, CHARGE_CAPACITY, ChargeSample, EDGE_CAPACITY, Edge, FormatError, GIT_CAPACITY, GPIO_CAPACITY, GpioSample, HEARTBEAT_CAPACITY, HELLO_CAPACITY, Hello, I2C_CAPACITY, I2cSample, IMAGE, LAMP_CAPACITY, LEFTOVER_CAPACITY, LeftoverSample, MIC_CAPACITY, MicSample, PANEL_CAPACITY, PCM_DUMP_NO_TONE_HZ, PCM_HEADER_CAPACITY, PCM_ROW_CAPACITY, PCM_ROW_SAMPLES, PCM_WINDOW_SAMPLES, PanelStamp, SCENE_CAPACITY, SLEEP_CAPACITY, SNOWFLAKE_CAPACITY, Scene, Snapshot, TONE_A4_HZ, TOUCH_CAPACITY, TouchSample, WAKE_CAPACITY, WIFI_CAPACITY, format_ble, format_charge, format_edge, format_git, format_gpio, format_heartbeat, format_hello, format_i2c, format_lamp, format_leftover, format_mic, format_mic_pcm_header, format_mic_pcm_row, format_panel, format_scene, format_sleep_abort, format_sleep_rtc, format_snowflake, format_touch, format_touch_at, format_touch_target, format_touch_verdict, format_wake, format_wifi};

#[test]
fn heartbeat_has_kind_and_buttons() {
    let mut buf = [0u8; HEARTBEAT_CAPACITY];
    let line = format_heartbeat(
        &Snapshot {
            t_s: 12,
            btn_a: true,
            btn_b: false,
        },
        &mut buf,
    )
    .unwrap();
    assert_eq!(line, "simple-debug: hb t=12 btn_a=1 btn_b=0");
}

#[test]
fn hello_names_image_sku_and_reset_without_mac() {
    let mut buf = [0u8; HELLO_CAPACITY];
    let line = format_hello(
        &Hello {
            t_s: 0,
            image: IMAGE,
            sku: "C153-Lite",
            cpu_mhz: 80,
            xtal_mhz: 40,
            reset: "chip_power_on",
        },
        &mut buf,
    )
    .unwrap();
    assert_eq!(
        line,
        "simple-debug: hello t=0 image=simple-debug sku=C153-Lite chip=esp32s3 cpu_mhz=80 xtal_mhz=40 reset=chip_power_on"
    );
    assert!(!line.to_ascii_lowercase().contains("mac"));
}

#[test]
fn git_line_marks_dirty() {
    let mut buf = [0u8; GIT_CAPACITY];
    let line = format_git("deadbeef", true, &mut buf).unwrap();
    assert_eq!(line, "simple-debug: git=deadbeef dirty=1");
}

#[test]
fn git_line_marks_clean() {
    let mut buf = [0u8; GIT_CAPACITY];
    let line = format_git("abc", false, &mut buf).unwrap();
    assert_eq!(line, "simple-debug: git=abc dirty=0");
}

#[test]
fn edge_one_button() {
    let mut buf = [0u8; EDGE_CAPACITY];
    let line = format_edge(
        &Edge {
            t_ms: 1250,
            btn_a: Some((true, false)),
            btn_b: None,
        },
        &mut buf,
    )
    .unwrap();
    assert_eq!(line, "simple-debug: edge t_ms=1250 btn_a=1->0");
}

#[test]
fn edge_both_buttons() {
    let mut buf = [0u8; EDGE_CAPACITY];
    let line = format_edge(
        &Edge {
            t_ms: 50,
            btn_a: Some((true, false)),
            btn_b: Some((true, false)),
        },
        &mut buf,
    )
    .unwrap();
    assert_eq!(line, "simple-debug: edge t_ms=50 btn_a=1->0 btn_b=1->0");
}

#[test]
fn gpio_sample_is_five_bits() {
    let mut buf = [0u8; GPIO_CAPACITY];
    let line = format_gpio(
        &GpioSample {
            boot: true,
            pmic_irq: true,
            tp: false,
            ioe: true,
            busy: false,
        },
        &mut buf,
    )
    .unwrap();
    assert_eq!(
        line,
        "simple-debug: gpio boot=1 pmic_irq=1 tp=0 ioe=1 busy=0"
    );
}

#[test]
fn leftover_sample_is_three_bits() {
    let mut buf = [0u8; LEFTOVER_CAPACITY];
    let line = format_leftover(
        &LeftoverSample {
            lora_irq: false,
            nfc_irq: true,
            sx_busy: false,
        },
        &mut buf,
    )
    .unwrap();
    assert_eq!(
        line,
        "simple-debug: leftover lora_irq=0 nfc_irq=1 sx_busy=0"
    );
}

#[test]
fn radio_counts_have_no_mac() {
    let mut wifi = [0u8; WIFI_CAPACITY];
    let mut ble = [0u8; BLE_CAPACITY];
    let wifi_line = format_wifi(12, &mut wifi).unwrap();
    let ble_line = format_ble(4, &mut ble).unwrap();
    assert_eq!(wifi_line, "simple-debug: wifi n=12");
    assert_eq!(ble_line, "simple-debug: ble n=4");
    assert!(!wifi_line.contains("mac"));
    assert!(!ble_line.contains("mac"));
}

#[test]
fn charge_sample_has_no_mac() {
    let mut buf = [0u8; CHARGE_CAPACITY];
    let line = format_charge(
        &ChargeSample {
            vbat: 3921,
            vin: 5080,
            src: 0x05,
            chg_en: true,
            ip: true,
            then_ack: false,
        },
        &mut buf,
    )
    .unwrap();
    assert_eq!(
        line,
        "simple-debug: charge vbat=3921 vin=5080 src=05 chg_en=1 ip=1 then=0"
    );
    assert!(!line.contains("mac"));
}

#[test]
fn sleep_and_wake_lines() {
    let mut sleep = [0u8; SLEEP_CAPACITY];
    let mut abort = [0u8; SLEEP_CAPACITY];
    let mut wake = [0u8; WAKE_CAPACITY];
    assert_eq!(
        format_sleep_rtc(10, &mut sleep).unwrap(),
        "simple-debug: sleep rtc=10"
    );
    assert_eq!(
        format_sleep_abort(&mut abort).unwrap(),
        "simple-debug: sleep abort"
    );
    assert_eq!(
        format_wake(0x20, &mut wake).unwrap(),
        "simple-debug: wake src=20"
    );
}

#[test]
fn i2c_sample_marks_lite_nfc_nak() {
    let mut buf = [0u8; I2C_CAPACITY];
    let line = format_i2c(
        &I2cSample {
            pm1: true,
            ioe: true,
            ioe_addr: 0x4F,
            rtc: true,
            rtc_flag: 0x00,
            imu: true,
            imu_id: 0x24,
            tp: true,
            nfc: false,
            chg: false,
            ioe_um: false,
            tf: true,
        },
        &mut buf,
    )
    .unwrap();
    assert_eq!(
        line,
        "simple-debug: i2c pm1=1 ioe=1 ioe_addr=4f rtc=1 rtc_flag=00 imu=1 imu_id=24 tp=1 nfc=0 chg=0 tf=1 ack=32,38,4f,68,6e nak=50,6f,75"
    );
}

#[test]
fn touch_int_has_no_xy() {
    let mut buf = [0u8; TOUCH_CAPACITY];
    let line = format_touch(
        &TouchSample {
            int_ready: true,
            n: 0,
            x: 0,
            y: 0,
            x2: 0,
            y2: 0,
        },
        &mut buf,
    )
    .unwrap();
    assert_eq!(line, "simple-debug: touch int=1 n=0");
    assert!(!line.contains("x="));
    let xy = format_touch(
        &TouchSample {
            int_ready: false,
            n: 1,
            x: 240,
            y: 400,
            x2: 0,
            y2: 0,
        },
        &mut buf,
    )
    .unwrap();
    assert_eq!(xy, "simple-debug: touch int=0 n=1 x=240 y=400");
    let tgt = format_touch_target(5, "slide_x", 240, 400, 6, &mut buf).unwrap();
    assert_eq!(
        tgt,
        "simple-debug: touch target=5 kind=slide_x x=240 y=400 r=6"
    );
    let at = format_touch_at(
        0,
        &TouchSample {
            int_ready: false,
            n: 1,
            x: 230,
            y: 410,
            x2: 0,
            y2: 0,
        },
        240,
        400,
        &mut buf,
    )
    .unwrap();
    assert_eq!(at, "simple-debug: touch id=0 n=1 x=230 y=410 tx=240 ty=400");
    let hit = format_touch_verdict(0, "hit", 230, 410, 240, 400, 14, &mut buf).unwrap();
    assert_eq!(
        hit,
        "simple-debug: touch id=0 hit x=230 y=410 tx=240 ty=400 d=14"
    );
}

#[test]
fn mic_pcm_header_is_requested_tone() {
    let mut buf = [0u8; PCM_HEADER_CAPACITY];
    assert_eq!(
        format_mic_pcm_header(PCM_DUMP_NO_TONE_HZ, PCM_WINDOW_SAMPLES, &mut buf).unwrap(),
        "simple-debug: mic pcm hz=0 n=256"
    );
    let mut row = [0u8; PCM_ROW_CAPACITY];
    assert_eq!(
        format_mic_pcm_row(0, &[120, -30, 400], &mut row).unwrap(),
        "simple-debug: pcm 000 120 -30 400"
    );
    assert_eq!(PCM_DUMP_NO_TONE_HZ, 0);
    assert_eq!(TONE_A4_HZ, 440);
    assert_eq!(PCM_ROW_SAMPLES, 16);
}

#[test]
fn mic_and_panel_stamps() {
    let mut mic_buf = [0u8; MIC_CAPACITY];
    assert_eq!(
        format_mic(&MicSample { rms: 12, peak: 40 }, &mut mic_buf).unwrap(),
        "simple-debug: mic rms=12 peak=40"
    );
    let mut panel_buf = [0u8; PANEL_CAPACITY];
    assert_eq!(
        format_panel(
            &PanelStamp {
                mode: "otp_orient",
                w: 800,
                h: 480,
                busy_rose: true,
            },
            &mut panel_buf,
        )
        .unwrap(),
        "simple-debug: panel mode=otp_orient w=800 h=480 busy_rose=1"
    );
}

#[test]
fn scene_wraps_and_formats() {
    assert_eq!(Scene::Splash.next(), Scene::Shapes);
    assert_eq!(Scene::Targets.next(), Scene::Splash);
    assert_eq!(Scene::Splash.prev(), Scene::Targets);
    assert_eq!(Scene::Targets.prev(), Scene::Tones);
    assert!(Scene::Tones.uses_gray());
    assert!(!Scene::Splash.uses_gray());
    assert!(!Scene::Legend.uses_gray());
    assert!(!Scene::Shapes.uses_gray());
    assert!(!Scene::Targets.uses_gray());
    assert_eq!(Scene::ALL.len(), 5);
    let mut buf = [0u8; SCENE_CAPACITY];
    assert_eq!(
        format_scene(Scene::Splash, &mut buf).unwrap(),
        "simple-debug: scene=splash"
    );
    let mut lamp = [0u8; LAMP_CAPACITY];
    assert_eq!(
        format_lamp(1024, &mut lamp).unwrap(),
        "simple-debug: lamp=1024"
    );
    let mut snowflake = [0u8; SNOWFLAKE_CAPACITY];
    assert_eq!(
        format_snowflake(1234, &mut snowflake).unwrap(),
        "simple-debug: snowflake us=1234"
    );
    assert_eq!(BUTTON_HOLD_PCM_MS, 1_000);
}

#[test]
fn heartbeat_truncated_when_buffer_is_tiny() {
    let mut buf = [0u8; 4];
    assert_eq!(
        format_heartbeat(
            &Snapshot {
                t_s: 1,
                btn_a: false,
                btn_b: false,
            },
            &mut buf,
        ),
        Err(FormatError::Truncated)
    );
}


#[test]
fn scene_walk_visits_each_card_once() {
    let mut seen = Vec::new();
    let mut s = Scene::Splash;
    for _ in 0..5 {
        assert!(!seen.contains(&s));
        seen.push(s);
        assert_eq!(s.next().prev(), s);
        s = s.next();
    }
    assert_eq!(s, Scene::Splash);
}
