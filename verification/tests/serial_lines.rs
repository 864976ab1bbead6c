use papermono::firmware::cdc::{
    ble, charge, edge, git, gpio, heartbeat, hello, i2c, lamp, leftover, mic, panel, scene,
    snowflake, touch, wifi,
};
use papermono::firmware::draw::{wifi_action_hit, wifi_action_rect};
use papermono::firmware::layout::{BleLayout, WifiCardLayout};
use papermono::firmware::card_ops::{bluetooth_card, draw_sleeping, legend_card, tones_card, DrawOp};
use papermono::firmware::radio::{BleFailReason, BlePairStatus};
use papermono::firmware::share::{from_scene_byte, scene_byte, SceneShare};
use papermono::log::{
    ChargeSample, Edge, GpioSample, Hello, I2cSample, LeftoverSample, MicSample, PanelStamp, Scene,
    Snapshot, TouchSample, IMAGE_EMBASSY,
};

fn text(line: Option<Vec<u8>>) -> String {
    String::from_utf8(line.expect("line fits its buffer")).unwrap()
}

#[test]
fn serial_banner_and_build_lines() {
    let banner = Hello {
        t_s: 3,
        image: IMAGE_EMBASSY,
        sku: "C153",
        cpu_mhz: 240,
        xtal_mhz: 40,
        reset: "sw_reset",
    };
    assert_eq!(
        text(hello(&banner)),
        "simple-debug: hello t=3 image=embassy-debug sku=C153 chip=esp32s3 cpu_mhz=240 xtal_mhz=40 reset=sw_reset"
    );
    assert_eq!(text(git("0123abcd", false)), "simple-debug: git=0123abcd dirty=0");
    assert_eq!(text(git("0123abcd", true)), "simple-debug: git=0123abcd dirty=1");
}

#[test]
fn serial_git_line_too_long_is_not_sent() {
    let hash = "f".repeat(200);
    assert_eq!(git(&hash, false), None);
}

#[test]
fn serial_liveness_and_button_lines() {
    assert_eq!(
        text(heartbeat(&Snapshot { t_s: 7, btn_a: false, btn_b: true })),
        "simple-debug: hb t=7 btn_a=0 btn_b=1"
    );
    let line = text(edge(&Edge { t_ms: 40, btn_a: Some((true, false)), btn_b: None }));
    assert!(line.starts_with("simple-debug: edge t_ms=40"));
    let g = gpio(&GpioSample { boot: true, pmic_irq: false, tp: true, ioe: false, busy: true });
    assert!(text(g).starts_with("simple-debug: gpio boot=1 pmic_irq=0"));
    let l = leftover(&LeftoverSample { lora_irq: true, nfc_irq: false, sx_busy: true });
    assert!(text(l).starts_with("simple-debug: leftover lora_irq=1 nfc_irq=0"));
}

#[test]
fn serial_counts_and_levels() {
    assert_eq!(text(wifi(12)), "simple-debug: wifi n=12");
    assert_eq!(text(ble(0)), "simple-debug: ble n=0");
    assert_eq!(text(lamp(512)), "simple-debug: lamp=512");
    assert_eq!(text(snowflake(65_535)), "simple-debug: snowflake us=65535");
    assert_eq!(text(scene(Scene::Legend)), "simple-debug: scene=legend");
    assert_eq!(text(mic(&MicSample { rms: 1, peak: 2 })), "simple-debug: mic rms=1 peak=2");
}

#[test]
fn serial_device_lines() {
    let c = ChargeSample { vbat: 4012, vin: 0, src: 0x01, chg_en: false, ip: false, then_ack: true };
    assert_eq!(
        text(charge(&c)),
        "simple-debug: charge vbat=4012 vin=0 src=01 chg_en=0 ip=0 then=1"
    );
    let p = PanelStamp { mode: "otp_fast", w: 480, h: 800, busy_rose: false };
    assert_eq!(text(panel(&p)), "simple-debug: panel mode=otp_fast w=480 h=800 busy_rose=0");
    let t = TouchSample { int_ready: true, n: 0, x: 0, y: 0, x2: 0, y2: 0 };
    assert!(text(touch(&t)).starts_with("simple-debug: touch int=1"));
    let s = I2cSample {
        pm1: true,
        ioe: true,
        ioe_addr: 0x4F,
        rtc: true,
        rtc_flag: 0x00,
        imu: true,
        imu_id: 0x24,
        tp: true,
        nfc: false,
        chg: false,
        ioe_um: false,
        tf: true,
    };
    assert_eq!(
        text(i2c(&s)),
        "simple-debug: i2c pm1=1 ioe=1 ioe_addr=4f rtc=1 rtc_flag=00 imu=1 imu_id=24 tp=1 nfc=0 chg=0 tf=1 ack=32,38,4f,68,6e nak=50,6f,75"
    );
}

#[test]
fn shared_scene_reads_back_what_was_stored() {
    let mut reg = SceneShare::new();
    assert_eq!(reg.last_scene(), None);
    for s in [Scene::Splash, Scene::Shapes, Scene::Legend, Scene::Tones, Scene::Targets] {
        reg.store_scene(s);
        assert_eq!(reg.last_scene(), Some(s));
        assert_eq!(from_scene_byte(scene_byte(s)), Some(s));
    }
    assert_eq!(scene_byte(Scene::Tones), 6);
    assert_eq!(scene_byte(Scene::Targets), 7);
    assert_eq!(from_scene_byte(3), None);
    assert_eq!(from_scene_byte(8), None);
    reg.scene = 4;
    assert_eq!(reg.last_scene(), None);
}

#[test]
fn wifi_button_geometry_upright_and_sideways() {
    assert_eq!(wifi_action_rect(480, 800, true), (60, 660, 360, 56));
    assert_eq!(wifi_action_rect(800, 480, false), (60, 380, 680, 56));
    assert!(wifi_action_hit(50, 650, 480, 800, true));
    assert!(!wifi_action_hit(49, 650, 480, 800, true));
    assert!(wifi_action_hit(429, 725, 480, 800, true));
    assert!(!wifi_action_hit(430, 725, 480, 800, true));
    assert!(!wifi_action_hit(200, 726, 480, 800, true));
    assert!(wifi_action_hit(749, 445, 800, 480, false));
    assert!(!wifi_action_hit(750, 445, 800, 480, false));
    // A page too small for the button clips every edge at 0.
    assert_eq!(wifi_action_rect(100, 100, true), (60, 0, 0, 56));
}

#[test]
fn card_layouts_follow_the_page() {
    let up = WifiCardLayout::survey(480, 800, true);
    assert_eq!((up.cx, up.rule_x, up.rule_w, up.title_y, up.footer_y), (240, 30, 420, 50, 770));
    assert_eq!((up.ap_row0_y, up.ap_row_step, up.cred_w), (338, 28, 0));
    let side = WifiCardLayout::survey(800, 480, false);
    assert_eq!((side.cx, side.rule_w, side.banner_w), (400, 720, 680));
    assert_eq!((side.guide_div_y, side.guide_title_y, side.guide_y0), (290, 302, 324));
    assert_eq!((side.footer_bar_y, side.footer_y), (440, 464));
    let ap = WifiCardLayout::hotspot(800, 480, false);
    assert_eq!((ap.guide_div_y, ap.guide_title_y, ap.guide_y0, ap.cred_w), (302, 314, 332, 720));
    assert_eq!((ap.pass_x0, ap.pass_pitch, ap.telem_line3_y), (120, 42, 292));
    let ap_up = WifiCardLayout::hotspot(480, 800, true);
    assert_eq!((ap_up.cred_x, ap_up.cred_y, ap_up.cred_w, ap_up.cred_h), (40, 145, 400, 205));
    let ble = BleLayout::for_rotation(480, true);
    assert_eq!((ble.cx, ble.pin_frame_x, ble.digit_pitch, ble.footer_y), (240, 60, 52, 755));
    let ble_side = BleLayout::for_rotation(800, false);
    assert_eq!((ble_side.cx, ble_side.pin_frame_x, ble_side.rule_w), (400, 220, 720));
}

fn text_op(op: &DrawOp) -> Option<(i32, i32, bool, String)> {
    match op {
        DrawOp::Text { x, y, centered, text } => Some((*x, *y, *centered, String::from_utf8(text.clone()).unwrap())),
        _ => None,
    }
}

#[test]
fn bluetooth_card_draws_the_pin_digits() {
    let ops = bluetooth_card(BlePairStatus::Pairing(123456), 480, true);
    assert_eq!(ops.len(), 30);
    assert_eq!(ops[0], DrawOp::Clear(3));
    assert_eq!(ops[1], DrawOp::Fill { x: 30, y: 70, w: 420, h: 2, tone: 0 });
    assert_eq!(ops[3], DrawOp::Stroke { x: 63, y: 178, w: 354, h: 84, tone: 0 });
    assert_eq!(ops[5], DrawOp::Stroke { x: 142, y: 195, w: 40, h: 50, tone: 0 });
    let texts: Vec<_> = ops.iter().filter_map(text_op).collect();
    assert_eq!(texts[0], (240, 50, true, "BLUETOOTH PAIRING".to_string()));
    assert_eq!(texts[2], (240, 145, true, "Enter this PIN code on your phone:".to_string()));
    let digits: String = texts[3..9].iter().map(|t| t.3.clone()).collect();
    assert_eq!(digits, "123456");
    assert_eq!((texts[3].0, texts[3].1), (110, 227));
    assert_eq!(texts[8].0, 110 + 5 * 52);
    assert_eq!(texts[11].3, "HOW TO PAIR");
    assert_eq!((texts[12].0, texts[12].1, texts[12].2), (45, 545, false));
    assert_eq!(texts[15].1, 545 + 3 * 35);
    assert_eq!(texts[16].3, "BUTTON A: Prev   |   BUTTON B: Next");
}

#[test]
fn bluetooth_card_failure_and_landscape() {
    let ops = bluetooth_card(BlePairStatus::Failed(BleFailReason::ConfirmValueFailed), 800, false);
    let texts: Vec<_> = ops.iter().filter_map(text_op).collect();
    assert!(texts.iter().any(|t| t.3 == "Why: Confirm value mismatch" && t.1 == 250));
    assert!(texts.iter().any(|t| t.3 == "FAILED"));
    // Six dashes in the digit row, and the double status box is drawn.
    assert_eq!(texts.iter().filter(|t| t.3 == "-").count(), 6);
    assert!(ops.contains(&DrawOp::Stroke { x: 262, y: 202, w: 276, h: 36, tone: 0 }));
    let steps: Vec<_> = texts.iter().filter(|t| !t.2).collect();
    assert_eq!(steps.iter().map(|t| (t.0, t.1)).collect::<Vec<_>>(), vec![(40, 328), (420, 328), (40, 360), (420, 360)]);
    let paired = bluetooth_card(BlePairStatus::Success, 480, true);
    assert!(paired.contains(&DrawOp::Stroke { x: 90, y: 195, w: 300, h: 50, tone: 0 }));
    assert!(paired.iter().filter_map(text_op).any(|t| t.3 == "P A I R E D"));
}

#[test]
fn legend_card_shows_the_battery_band() {
    let c = ChargeSample { vbat: 3725, vin: 5000, src: 0, chg_en: true, ip: false, then_ack: false };
    let ops = legend_card(Some(c), 480, 800, true);
    let texts: Vec<_> = ops.iter().filter_map(text_op).collect();
    assert_eq!(texts[0], (240, 50, true, "HARDWARE LEGEND".to_string()));
    assert_eq!(texts[1], (30, 90, false, "BUTTON A (GPIO2)".to_string()));
    assert_eq!(texts[2], (50, 115, false, "Previous card / hold 2s sleep".to_string()));
    assert_eq!(texts[15], (30, 590, false, "POWER BUTTON".to_string()));
    assert!(ops.contains(&DrawOp::Fill { x: 32, y: 682, w: 50, h: 16, tone: 0 }));
    assert!(texts.iter().any(|t| t.3 == "50%  [ 3725 mV ]" && t.1 == 697));
    assert!(texts.iter().any(|t| t.3 == "Power: USB connected (VIN: 5000 mV)"));
    let none = legend_card(None, 800, 480, false);
    let texts: Vec<_> = none.iter().filter_map(text_op).collect();
    assert_eq!(texts[0], (400, 36, true, "HARDWARE LEGEND".to_string()));
    assert_eq!(texts[2], (220, 80, false, "Previous card / hold 2s sleep".to_string()));
    assert!(texts.iter().any(|t| t.3 == "--%  [ ---- mV ]" && t.1 == 408));
    assert!(texts.iter().any(|t| t.3 == "Power: Running on battery" && t.1 == 432));
    assert!(none.contains(&DrawOp::Fill { x: 30, y: 360, w: 740, h: 2, tone: 0 }));
    assert!(!none.iter().any(|o| matches!(o, DrawOp::Fill { x: 32, .. })));
}

#[test]
fn tones_and_sleep_screens() {
    let side = tones_card(800, 480, false);
    assert_eq!(side.len(), 9);
    assert_eq!(side[1], DrawOp::Fill { x: 32, y: 48, w: 172, h: 384, tone: 0 });
    assert_eq!(side[7], DrawOp::Fill { x: 596, y: 48, w: 172, h: 384, tone: 3 });
    assert_eq!(side[8], DrawOp::Stroke { x: 596, y: 48, w: 172, h: 384, tone: 0 });
    let up = tones_card(480, 800, true);
    assert_eq!(up[5], DrawOp::Fill { x: 40, y: 420, w: 400, h: 140, tone: 2 });
    let sleep = draw_sleeping(480, 800);
    let texts: Vec<_> = sleep.iter().filter_map(text_op).collect();
    assert_eq!(texts[0], (240, 394, true, "sleeping,".to_string()));
    assert_eq!(texts[1], (240, 426, true, "press A or B for 1 second to restart".to_string()));
}
