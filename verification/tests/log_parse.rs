use papermono::log::parse::{classify, field, records, LineKind};
use papermono::log::{format_ble, format_heartbeat, format_wifi, Snapshot};

#[test]
fn glued_heartbeats_split_on_prefix() {
    let text = "simple-debug: hb t=1 btn_a=1 btn_b=1simple-debug: hb t=27 btn_a=1 btn_b=1\n";
    let recs = records(text).collect_all();
    assert_eq!(recs.len(), 2);
    assert_eq!(recs[0].kind, LineKind::Hb);
    assert_eq!(recs[0].field("t"), Some("1"));
    assert_eq!(recs[1].field("t"), Some("27"));
}

#[test]
fn hello_fields_and_no_mac() {
    let text = "simple-debug: hello t=0 image=simple-debug sku=C153-Lite chip=esp32s3 cpu_mhz=80 xtal_mhz=40 reset=chip_power_on\r\n";
    let rec = records(text).next().unwrap();
    assert_eq!(rec.kind, LineKind::Hello);
    assert_eq!(rec.field("image"), Some("simple-debug"));
    assert_eq!(rec.field("sku"), Some("C153-Lite"));
    assert!(!rec.mentions_mac());
}

#[test]
fn git_kind_from_git_equals() {
    let rec = records("simple-debug: git=abc dirty=0\n").next().unwrap();
    assert_eq!(rec.kind, LineKind::Git);
    assert_eq!(rec.field("git"), Some("abc"));
}

#[test]
fn mac_field_is_flagged() {
    let rec = records("simple-debug: hb t=1 mac=aa\n").next().unwrap();
    assert!(rec.mentions_mac());
}

#[test]
fn later_kinds_classify() {
    assert_eq!(records("simple-debug: i2c pm1=1 nfc=0\n").next().unwrap().kind, LineKind::I2c);
    assert_eq!(records("simple-debug: touch int=0 n=0\n").next().unwrap().kind, LineKind::Touch);
    assert_eq!(records("simple-debug: mic rms=1 peak=2\n").next().unwrap().kind, LineKind::Mic);
    assert_eq!(records("simple-debug: pcm 000 120 -30\n").next().unwrap().kind, LineKind::Pcm);
    assert_eq!(
        records("simple-debug: panel mode=otp_gray w=800 h=480 busy_rose=1\n").next().unwrap().kind,
        LineKind::Panel
    );
    assert_eq!(records("simple-debug: scene=splash\n").next().unwrap().kind, LineKind::Scene);
    assert_eq!(records("simple-debug: lamp=1024\n").next().unwrap().kind, LineKind::Lamp);
    assert_eq!(
        records("simple-debug: leftover lora_irq=0 nfc_irq=1 sx_busy=0\n").next().unwrap().kind,
        LineKind::Leftover
    );
    assert_eq!(records("simple-debug: wifi n=12\n").next().unwrap().kind, LineKind::Wifi);
    assert_eq!(records("simple-debug: ble n=4\n").next().unwrap().kind, LineKind::Ble);
    assert_eq!(
        records("simple-debug: charge vbat=3921 vin=5080 src=05 chg_en=1 ip=1 then=0\n").next().unwrap().kind,
        LineKind::Charge
    );
    assert_eq!(records("simple-debug: sleep rtc=10\n").next().unwrap().kind, LineKind::Sleep);
    assert_eq!(records("simple-debug: wake src=20\n").next().unwrap().kind, LineKind::Wake);
}

#[test]
fn bssid_and_irk_are_flagged() {
    assert!(records("simple-debug: wifi bssid=aa\n").next().unwrap().mentions_mac());
    assert!(records("simple-debug: ble irk=bb\n").next().unwrap().mentions_mac());
}

#[test]
fn identity_keys_match_in_any_case_and_only_as_keys() {
    assert!(records("simple-debug: hb ISerial=1\n").next().unwrap().mentions_mac());
    assert!(records("simple-debug: hb MAC\n").next().unwrap().mentions_mac());
    assert!(!records("simple-debug: hb x=mac\n").next().unwrap().mentions_mac());
    assert!(!records("simple-debug: hb macaddr=1\n").next().unwrap().mentions_mac());
}

#[test]
fn text_without_the_mark_has_no_record() {
    let mut it = records("boot: ok\nsimple-debu");
    assert!(it.next().is_none());
    assert!(it.next().is_none());
    assert_eq!(records("").collect_all().len(), 0);
}

#[test]
fn noise_before_the_mark_is_skipped_and_body_is_trimmed() {
    let mut it = records("ESP-ROM:esp32s3\r\n\tsimple-debug:   \t wake src=20 \r\n");
    let rec = it.next().unwrap();
    assert_eq!(rec.body, "wake src=20");
    assert_eq!(rec.kind, LineKind::Wake);
    assert!(it.next().is_none());
}

#[test]
fn empty_record_is_unknown() {
    let recs = records("simple-debug:simple-debug:\n").collect_all();
    assert_eq!(recs.len(), 2);
    assert_eq!(recs[0].body, "");
    assert_eq!(recs[0].kind, LineKind::Unknown);
    assert_eq!(recs[1].kind, LineKind::Unknown);
}

#[test]
fn non_ascii_text_keeps_its_characters() {
    let rec = records("simple-debug: scene=café lamp=1\n").next().unwrap();
    assert_eq!(rec.kind, LineKind::Scene);
    assert_eq!(rec.field("scene"), Some("café"));
    assert_eq!(rec.field("lamp"), Some("1"));
}

#[test]
fn field_takes_the_first_match_and_splits_on_the_first_equals() {
    assert_eq!(field("a=1 a=2", "a"), Some("1"));
    assert_eq!(field("k=v=w", "k"), Some("v=w"));
    assert_eq!(field("k= x", "k"), Some(""));
    assert_eq!(field("k x=1", "k"), None);
    assert_eq!(field("", "k"), None);
    assert_eq!(field("=1", ""), Some("1"));
}

#[test]
fn classify_uses_the_first_token_only() {
    assert_eq!(classify("  hb t=1"), LineKind::Hb);
    assert_eq!(classify("hbx"), LineKind::Unknown);
    assert_eq!(classify("git="), LineKind::Git);
    assert_eq!(classify("x hello"), LineKind::Unknown);
    assert_eq!(classify(""), LineKind::Unknown);
    assert_eq!(classify("\u{c}edge a=1"), LineKind::Edge);
}

#[test]
fn heartbeat_written_then_read_back() {
    let mut buf = [0u8; 64];
    let line = format_heartbeat(&Snapshot { t_s: 4_294_967_295, btn_a: true, btn_b: false }, &mut buf).unwrap();
    let recs = records(line).collect_all();
    assert_eq!(recs.len(), 1);
    assert_eq!(recs[0].kind, LineKind::Hb);
    assert_eq!(recs[0].field("t"), Some("4294967295"));
    assert_eq!(recs[0].field("btn_a"), Some("1"));
    assert!(!recs[0].mentions_mac());
}

#[test]
fn two_written_lines_glued_still_split() {
    let mut a = [0u8; 40];
    let mut b = [0u8; 40];
    let text = format!("{}{}", format_wifi(12, &mut a).unwrap(), format_ble(4, &mut b).unwrap());
    let recs = records(&text).collect_all();
    assert_eq!(recs.len(), 2);
    assert_eq!((recs[0].kind, recs[0].body), (LineKind::Wifi, "wifi n=12"));
    assert_eq!((recs[1].kind, recs[1].body), (LineKind::Ble, "ble n=4"));
}

#[test]
fn snowflake_line_is_its_own_kind() {
    assert_eq!(classify("snowflake us=1234"), LineKind::Snowflake);
    assert_eq!(records("simple-debug: snowflake us=1234\n").next().unwrap().kind, LineKind::Snowflake);
    assert_eq!(classify("snowflakes us=1"), LineKind::Unknown);
}
