use papermono::firmware::beep::{ask, BeepRequest, Beeper, DEFAULT_VOLUME, QUEUE_DEPTH, TICK_MS};
use papermono::firmware::board::BoardSelect;
use papermono::firmware::cdc::{mic_pcm, touch_at, touch_target, touch_verdict};
use papermono::firmware::lora::{
    dwell_ms, sweep_slots, LoraCardState, LoraScanData, LoraShared, ACTIVE_TONE_MS, PACKET_TONE_MS,
};
use papermono::firmware::mic::MicShared;
use papermono::firmware::nfc::{NfcCardState, NfcShared};
use papermono::firmware::heartbeat::{pin_or_shared, HeartbeatState};
use papermono::firmware::panel::{
    gray_plane_row, official_bit, official_mono_row, set_plane, Mark, MonoRefresh, RefreshPolicy,
};
use papermono::firmware::panel_steps::{enter_mono, paint, paint_gray, paint_mono_fast, PanelStep};
use papermono::firmware::radio::{BleFailReason, BlePairStatus, RadioShared};
use papermono::ssd1677::OtpRefresh;
use papermono::firmware::sleep_wake::SleepRecord;
use papermono::firmware::targets::{verdict, ButtonWatch, DotWait, Outcome, SlideWait, WalkEnd};
use papermono::firmware::touch_bus::{
    bring_up_roster, empty_touch, BusMirror, LampSlide, NfcIdentitySample, VolumeSlide, VolumeStep,
};
use papermono::firmware::ui::{Nav, NavWait, LEGEND_AUTO_REFRESH_MS};
use papermono::lite::profile::BoardModel;
use papermono::log::{ChargeSample, I2cSample, MicSample, TouchSample};
use papermono::m5pm1::FRONTLIGHT_DUTY;
use papermono::radios::lora::{
    ChipMode, CommandStatus, RadioStatus, FREQ_RX_SNIFFER_PRI_HZ, FREQ_RX_SNIFFER_SEC_HZ,
};
use papermono::st25r3916::initiator::Iso14443aCard;

fn touch(n: u8) -> TouchSample {
    TouchSample { int_ready: false, n, x: 10, y: 20, x2: 0, y2: 0 }
}

#[test]
fn mirror_reads_back_what_was_stored() {
    let mut m = BusMirror::new();
    assert_eq!(m.last_i2c(), None);
    assert_eq!(m.last_charge(), None);
    assert_eq!(m.last_lamp(), None);
    let roster = I2cSample {
        pm1: true,
        ioe: true,
        ioe_addr: 0x4F,
        rtc: false,
        rtc_flag: 0x02,
        imu: true,
        imu_id: 0x24,
        tp: false,
        nfc: true,
        chg: false,
        ioe_um: true,
        tf: true,
    };
    m.store_i2c(roster);
    assert_eq!(m.i2c_bits, 0x001 | 0x002 | 0x008 | 0x020 | 0x080 | 0x100);
    assert_eq!(m.last_i2c(), Some(roster));
    let charge = ChargeSample { vbat: 3987, vin: 5012, src: 0x03, chg_en: true, ip: false, then_ack: true };
    m.store_charge(charge);
    assert_eq!(m.charge_bits, 0x05);
    assert_eq!(m.last_charge(), Some(charge));
    assert_eq!(m.last_i2c(), Some(roster));
    assert!(!m.lamp_needs_write(FRONTLIGHT_DUTY));
    assert!(m.lamp_needs_write(0));
    m.store_lamp(2048);
    assert_eq!(m.last_lamp(), Some(2048));
    assert_eq!(m.last_charge(), Some(charge));
}

#[test]
fn empty_touch_has_no_contacts() {
    assert_eq!(empty_touch(true), TouchSample { int_ready: true, n: 0, x: 0, y: 0, x2: 0, y2: 0 });
    assert_eq!(empty_touch(false).int_ready, false);
}

#[test]
fn lamp_slide_tracks_the_right_gutter() {
    let mut s = LampSlide::new();
    assert!(!s.armed());
    // Top of a portrait page in the right gutter: full duty.
    assert_eq!(s.feed(&touch(1), Some((470, 0)), 480, 800), Some(4095));
    assert!(s.armed());
    // Bottom row: off.
    assert_eq!(s.feed(&touch(1), Some((470, 799)), 480, 800), Some(0));
    // Middle of the page.
    assert_eq!(s.feed(&touch(1), Some((470, 400)), 480, 800), Some(2044));
    // Off the page: ignored, still armed.
    assert_eq!(s.feed(&touch(1), None, 480, 800), None);
    assert!(s.armed());
    // Three empty samples keep it, the fourth lets go.
    for _ in 0..3 {
        assert_eq!(s.feed(&touch(0), None, 480, 800), None);
        assert!(s.armed());
    }
    assert_eq!(s.feed(&touch(0), None, 480, 800), None);
    assert!(!s.armed());
    // A contact away from the gutter disarms at once.
    assert_eq!(s.feed(&touch(1), Some((470, 10)), 480, 800), Some(4043));
    assert_eq!(s.feed(&touch(1), Some((200, 10)), 480, 800), None);
    assert!(!s.armed());
}

#[test]
fn volume_slide_reports_and_ticks() {
    let mut s = VolumeSlide::new();
    // First contact at the top: volume 100, reported, tick.
    assert_eq!(
        s.feed(&touch(1), Some((10, 0)), 800),
        VolumeStep { consumed: true, new_volume: Some(100), tick: true }
    );
    // Same height: nothing new, no tick.
    assert_eq!(
        s.feed(&touch(1), Some((10, 0)), 800),
        VolumeStep { consumed: true, new_volume: None, tick: false }
    );
    // Row 16: 100 * 783 / 799 = 97, moved 3: reported, no tick.
    assert_eq!(
        s.feed(&touch(1), Some((10, 16)), 800),
        VolumeStep { consumed: true, new_volume: Some(97), tick: false }
    );
    // Row 48: 93, moved 7 from the last tick at 100: tick.
    assert_eq!(
        s.feed(&touch(1), Some((10, 48)), 800),
        VolumeStep { consumed: true, new_volume: Some(93), tick: true }
    );
    // Right side of the page is not the volume gutter.
    assert_eq!(
        s.feed(&touch(1), Some((300, 48)), 800),
        VolumeStep { consumed: false, new_volume: None, tick: false }
    );
    assert!(!s.armed());
    // A fresh drag ticks even without a change of 5.
    assert_eq!(
        s.feed(&touch(1), Some((10, 48)), 800),
        VolumeStep { consumed: true, new_volume: None, tick: true }
    );
    assert_eq!(
        s.feed(&touch(0), None, 800),
        VolumeStep { consumed: false, new_volume: None, tick: false }
    );
}

#[test]
fn beeper_queue_and_volume() {
    let mut b = Beeper::new();
    assert_eq!(b.volume(), DEFAULT_VOLUME);
    b.set_volume(250);
    assert_eq!(b.volume(), 100);
    assert!(b.click());
    assert!(b.tick());
    assert!(b.tone(5));
    assert!(b.tone(6));
    assert!(!b.tone(7), "a fifth request is dropped");
    assert_eq!(QUEUE_DEPTH, 4);
    assert_eq!(b.take(), Some(BeepRequest { ms: 40 }));
    assert_eq!(b.take(), Some(BeepRequest { ms: TICK_MS }));
    assert_eq!(b.take(), Some(BeepRequest { ms: 5 }));
    assert_eq!(b.take(), Some(BeepRequest { ms: 6 }));
    assert_eq!(b.take(), None);
    assert_eq!(b.duty_for(BeepRequest { ms: 40 }), Some(25));
    assert_eq!(b.duty_for(BeepRequest { ms: 0 }), None);
    b.set_volume(50);
    assert_eq!(b.duty_for(BeepRequest { ms: 40 }), Some(12));
    b.set_volume(3);
    assert_eq!(b.duty_for(BeepRequest { ms: 40 }), None);
    ask();
}

#[test]
fn lora_card_follows_its_registers() {
    let mut m = LoraShared::new();
    assert_eq!(m.card_state(), LoraCardState::Unpopulated);
    m.raw_status = 0x24;
    m.init_status(true);
    assert_eq!(
        m.card_state(),
        LoraCardState::Idle { raw_status: 0x24, mode: ChipMode::StbyRc, cmd: CommandStatus::DataAvailable }
    );
    m.store_tx(915_000, 14, 41, true);
    assert_eq!(
        m.card_state(),
        LoraCardState::Transmitted { freq_khz: 915_000, pwr_dbm: 14, time_ms: 41, ok: true }
    );
    assert_eq!(m.current_sniffer_freq_hz(), FREQ_RX_SNIFFER_PRI_HZ);
    assert_eq!(m.next_sniffer_freq_hz(), FREQ_RX_SNIFFER_PRI_HZ);
    assert_eq!(m.next_sniffer_freq_hz(), FREQ_RX_SNIFFER_SEC_HZ);
    assert_eq!(m.next_sniffer_freq_hz(), FREQ_RX_SNIFFER_PRI_HZ);
    m.set_listening_state(906_875);
    assert_eq!(m.card_state(), LoraCardState::Listening { freq_khz: 906_875 });
    m.store_rx(906_875, -97, 6, 23, [1, 2, 3, 4]);
    assert_eq!(
        m.card_state(),
        LoraCardState::Received { freq_khz: 906_875, rssi: -97, snr: 6, len: 23, preview: [1, 2, 3, 4] }
    );
    m.store_quiet(917_625, -118);
    assert_eq!(m.card_state(), LoraCardState::ListenQuiet { freq_khz: 917_625, ambient_rssi: -118 });
    m.init_status(false);
    assert_eq!(m.card_state(), LoraCardState::Unpopulated);
    m.state_code = 9;
    m.init_status(true);
    m.state_code = 9;
    assert_eq!(m.card_state(), LoraCardState::Unpopulated);
}

#[test]
fn sweep_order_and_dwell() {
    let v = sweep_slots();
    assert_eq!(v.len(), 107);
    assert_eq!(&v[..52], (0..=51u8).collect::<Vec<u8>>().as_slice());
    assert_eq!(&v[52..55], &[61, 62, 63]);
    assert_eq!(&v[55..], (52..=103u8).collect::<Vec<u8>>().as_slice());
    for s in 0..104u8 {
        assert!(v.contains(&s));
    }
    assert_eq!(dwell_ms(19), 25);
    assert_eq!(dwell_ms(61), 25);
    assert_eq!(dwell_ms(63), 25);
    assert_eq!(dwell_ms(60), 10);
    assert_eq!(dwell_ms(64), 10);
    assert_eq!(dwell_ms(0), 10);
}

#[test]
fn scan_records_peaks_hits_and_packets() {
    let mut m = LoraShared::new();
    m.begin_sweep();
    assert!(m.lora_scan_data().scanning);
    let mut d = m.lora_scan_data();
    assert_eq!(d.peak_rssi, -128);
    assert_eq!(d.record(3, -120, false), None);
    assert_eq!(d.hits[3], 0);
    assert_eq!(d.peak_rssi, -120);
    assert_eq!(d.peak_slot, 3);
    assert_eq!(d.record(61, -90, false), Some(ACTIVE_TONE_MS));
    assert_eq!(d.record(62, -110, true), Some(PACKET_TONE_MS));
    assert_eq!(d.record(61, -100, false), Some(ACTIVE_TONE_MS));
    assert_eq!((d.hits[61], d.hits[62]), (2, 1));
    assert_eq!(d.total_packets, 1);
    assert_eq!((d.peak_slot, d.peak_rssi, d.current_slot), (61, -90, 61));
    d.finish(false);
    assert!(d.scanning);
    assert_eq!(d.sweeps, 1);
    d.finish(true);
    assert!(!d.scanning);
    assert_eq!(d.sweeps, 1);
    let fresh = LoraScanData::default();
    assert!(fresh.hits.iter().all(|h| *h == 0));
    m.request_scan_stop();
    assert!(m.stop_requested);
    m.begin_sweep();
    assert!(!m.stop_requested);
    m.set_scanning(false);
    assert!(!m.lora_scan_data().scanning);
}

#[test]
fn nfc_card_follows_its_registers() {
    let mut m = NfcShared::new();
    assert_eq!(m.card_state(), NfcCardState::Idle);
    m.init_status(false);
    assert_eq!(m.card_state(), NfcCardState::Unpopulated);
    m.init_status(true);
    assert_eq!(m.card_state(), NfcCardState::Idle);
    let card = Iso14443aCard {
        atqa: [0x44, 0x00],
        sak: 0x00,
        uid_len: 7,
        uid: [0x04, 0x9A, 0x3B, 0x12, 0x55, 0x66, 0x80, 0, 0, 0],
    };
    m.store_detected(&card);
    assert_eq!(m.atqa_raw, 0x0044);
    assert_eq!(m.card_state(), NfcCardState::Detected(card));
    m.set_no_tag();
    assert_eq!(m.card_state(), NfcCardState::NoTag);
}

#[test]
fn pcm_dump_lines() {
    let samples: Vec<i16> = (0..20).map(|i| (i as i16) * 3 - 10).collect();
    let lines = mic_pcm(440, &samples);
    let text: Vec<String> = lines.iter().map(|l| String::from_utf8(l.clone()).unwrap()).collect();
    assert_eq!(text.len(), 3);
    assert_eq!(text[0], "simple-debug: mic pcm hz=440 n=20");
    assert_eq!(
        text[1],
        "simple-debug: pcm 000 -10 -7 -4 -1 2 5 8 11 14 17 20 23 26 29 32 35"
    );
    assert_eq!(text[2], "simple-debug: pcm 016 38 41 44 47");
    let empty = mic_pcm(0, &[]);
    assert_eq!(empty.len(), 1);
    assert_eq!(String::from_utf8(empty[0].clone()).unwrap(), "simple-debug: mic pcm hz=0 n=0");
}

#[test]
fn mic_registers_count_down_the_dump() {
    let mut m = MicShared::new();
    assert_eq!(m.last(), None);
    m.store(MicSample { rms: 12, peak: 300 });
    assert_eq!(m.last(), Some(MicSample { rms: 12, peak: 300 }));
    assert!(!m.dump_pending());
    m.ask_tone();
    assert!(m.dump_pending());
    assert!(!m.window_done(true));
    assert!(m.window_done(true));
    assert!(!m.dump_pending());
    assert!(m.window_done(false));
}

#[test]
fn sleep_lines_are_repeated() {
    let mut r = SleepRecord::new();
    assert!(r.reprint().is_empty());
    r.record_wake(0x20);
    r.record_sleep_rtc();
    let lines: Vec<String> = r.reprint().into_iter().map(|l| String::from_utf8(l).unwrap()).collect();
    assert_eq!(lines, vec!["simple-debug: wake src=20", "simple-debug: sleep rtc=10"]);
    r.record_sleep_abort();
    let lines: Vec<String> = r.reprint().into_iter().map(|l| String::from_utf8(l).unwrap()).collect();
    assert_eq!(lines, vec!["simple-debug: wake src=20", "simple-debug: sleep abort"]);
}

#[test]
fn board_model_reads_back() {
    let mut b = BoardSelect::new();
    assert_eq!(b.model(), BoardModel::PaperMonoLite);
    b.set_model(BoardModel::PaperMono);
    assert_eq!(b.model(), BoardModel::PaperMono);
    b.set_model(BoardModel::PaperMonoLite);
    assert_eq!(b.model(), BoardModel::PaperMonoLite);
}

#[test]
fn bring_up_roster_from_probes() {
    let charge = ChargeSample { vbat: 3900, vin: 0, src: 1, chg_en: false, ip: false, then_ack: false };
    let (s, lamp) = bring_up_roster(true, Some(0x4F), Some(0x02), Some(0x24), true, false, &charge, false, Some(true));
    assert_eq!(
        s,
        I2cSample {
            pm1: true,
            ioe: true,
            ioe_addr: 0x4F,
            rtc: true,
            rtc_flag: 0x02,
            imu: true,
            imu_id: 0x24,
            tp: true,
            nfc: false,
            chg: false,
            ioe_um: false,
            tf: true,
        }
    );
    assert!(lamp);
    // No expander: no card slot, no frontlight; a wrong chip id is no IMU.
    let (s, lamp) = bring_up_roster(true, None, None, Some(0x13), false, false, &charge, true, Some(true));
    assert_eq!((s.ioe, s.ioe_addr, s.rtc, s.rtc_flag, s.imu, s.imu_id, s.tf, s.ioe_um), (false, 0, false, 0, false, 0x13, false, true));
    assert!(!lamp);
    let (s, _) = bring_up_roster(false, Some(0x6F), None, None, false, true, &ChargeSample { then_ack: true, ..charge }, false, None);
    assert_eq!((s.imu_id, s.imu, s.tf, s.chg, s.nfc), (0, false, false, true, true));
}

#[test]
fn nfc_identity_register() {
    let mut m = BusMirror::new();
    assert_eq!(m.last_nfc(), None);
    m.store_nfc_id(true, 0x05, 0x02);
    assert_eq!(m.nfc_id, 0x8502);
    assert_eq!(m.last_nfc(), Some(NfcIdentitySample { ack: true, id: 0x05, rev: 0x02 }));
    m.store_nfc_id(true, 0, 0);
    assert_eq!(m.last_nfc(), Some(NfcIdentitySample { ack: true, id: 0, rev: 0 }));
    m.store_nfc_id(false, 0x05, 0x02);
    assert_eq!(m.last_nfc(), None);
    // A type with its top bit set loses that bit on the way back.
    m.store_nfc_id(true, 0x85, 0x01);
    assert_eq!(m.last_nfc(), Some(NfcIdentitySample { ack: true, id: 0x05, rev: 0x01 }));
}

#[test]
fn touch_walk_lines() {
    let text = |l: Option<Vec<u8>>| String::from_utf8(l.unwrap()).unwrap();
    assert_eq!(
        text(touch_target(5, "slide_x", 240, 400, 6)),
        "simple-debug: touch target=5 kind=slide_x x=240 y=400 r=6"
    );
    let sample = TouchSample { int_ready: false, n: 1, x: 230, y: 410, x2: 0, y2: 0 };
    assert_eq!(text(touch_at(0, &sample, 240, 400)), "simple-debug: touch id=0 n=1 x=230 y=410 tx=240 ty=400");
    assert_eq!(
        text(touch_verdict(0, "hit", 230, 410, 240, 400, 14)),
        "simple-debug: touch id=0 hit x=230 y=410 tx=240 ty=400 d=14"
    );
    let long = "k".repeat(200);
    assert_eq!(touch_target(1, &long, 1, 2, 3), None);
}

#[test]
fn buttons_abort_the_wait() {
    let mut w = ButtonWatch::new(true, true);
    let (edge, out) = w.poll(true, true, 0, 1, 2);
    assert!(edge.is_none() && out.is_none());
    let (edge, out) = w.poll(false, true, 150, 1, 2);
    let edge = edge.unwrap();
    assert_eq!((edge.t_ms, edge.btn_a, edge.btn_b), (150, Some((true, false)), None));
    assert_eq!(out, Some(Outcome::AbortA(1, 2)));
    let mut w = ButtonWatch::new(false, true);
    // A released: logged, no abort; B pressed: abort B.
    let (edge, out) = w.poll(true, true, 50, 0, 0);
    assert_eq!(edge.unwrap().btn_a, Some((false, true)));
    assert_eq!(out, None);
    let (_, out) = w.poll(true, false, 100, 7, 8);
    assert_eq!(out, Some(Outcome::AbortB(7, 8)));
}

#[test]
fn dot_wait_hits_misses_and_lifts() {
    let mut lamp = LampSlide::new();
    let mut w = DotWait::new();
    let at = |x: u16, y: u16| TouchSample { int_ready: false, n: 1, x, y, x2: 0, y2: 0 };
    // Far from (240, 400), not in the gutter: logged with one miss verdict.
    let s = w.step(&mut lamp, &at(40, 40), Some((40, 40)), 480, 800, false, 240, 400);
    assert_eq!((s.dist, s.log_at, s.log_miss, s.lamp_duty, s.outcome), (411, true, true, None, None));
    let s = w.step(&mut lamp, &at(41, 40), Some((41, 40)), 480, 800, false, 240, 400);
    assert_eq!((s.log_at, s.log_miss), (true, false));
    // A lift with INT low is logged once, and re-arms the miss verdict.
    let s = w.step(&mut lamp, &TouchSample { int_ready: false, n: 0, x: 0, y: 0, x2: 0, y2: 0 }, None, 480, 800, false, 240, 400);
    assert!(s.log_at);
    let s = w.step(&mut lamp, &TouchSample { int_ready: false, n: 0, x: 0, y: 0, x2: 0, y2: 0 }, None, 480, 800, false, 240, 400);
    assert!(!s.log_at);
    assert_eq!(w.t_ms, 200);
    // In the right gutter: the slider takes it, nothing logged.
    let s = w.step(&mut lamp, &at(470, 10), Some((470, 10)), 480, 800, false, 240, 400);
    assert_eq!((s.log_at, s.log_miss, s.lamp_duty), (false, false, Some(4043)));
    // Within the slop: hit with its distance.
    let s = w.step(&mut lamp, &at(300, 480), Some((300, 480)), 480, 800, false, 240, 400);
    assert_eq!(s.outcome, Some(Outcome::Hit(300, 480, 100)));
    assert!(s.log_at);
    assert_eq!((w.last_x, w.last_y), (300, 480));
}

#[test]
fn slide_wait_needs_both_ends() {
    let mut lamp = LampSlide::new();
    let mut w = SlideWait::new();
    let at = |x: u16, y: u16| TouchSample { int_ready: false, n: 1, x, y, x2: 0, y2: 0 };
    // Horizontal slide through (240, 400).
    let s = w.step(&mut lamp, &at(60, 420), Some((60, 420)), 480, 800, true, 240, 400);
    assert_eq!((s.log_at, s.outcome), (true, None));
    assert_eq!((w.min_v, w.max_v), (60, 60));
    // Off the line: not counted.
    let s = w.step(&mut lamp, &at(470, 100), Some((470, 100)), 480, 800, true, 240, 400);
    assert_eq!((s.log_at, s.outcome, s.lamp_duty.is_some()), (false, None, true));
    let s = w.step(&mut lamp, &at(300, 390), None, 480, 800, true, 240, 400);
    assert_eq!(s.outcome, None);
    let s = w.step(&mut lamp, &at(396, 380), None, 480, 800, true, 240, 400);
    assert_eq!(s.outcome, Some(Outcome::Hit(396, 380, 336)));
    assert_eq!(verdict(Outcome::Hit(396, 380, 336)), ("hit", 396, 380, 336, None));
    assert_eq!(verdict(Outcome::AbortA(1, 2)), ("abort=btn_a", 1, 2, 0, Some(WalkEnd::AbortPrev)));
    assert_eq!(verdict(Outcome::AbortB(1, 2)), ("abort=btn_b", 1, 2, 0, Some(WalkEnd::AbortNext)));
    assert_eq!(verdict(Outcome::Timeout(3, 4)), ("abort=timeout", 3, 4, 0, None));
}

#[test]
fn frame_rows_from_portrait_planes() {
    let mut bw = vec![0u8; 48_000];
    let red = vec![0u8; 48_000];
    // Portrait pixel (10, 123).
    bw[123 * 60 + 1] = 0x20;
    let mut row = [0u8; 100];
    official_mono_row(&mut row, &bw, &red, 10, false);
    for (i, b) in row.iter().enumerate() {
        assert_eq!(*b, if i == 15 { 0xEF } else { 0xFF }, "byte {i}");
    }
    official_mono_row(&mut row, &bw, &red, 10, true);
    for (i, b) in row.iter().enumerate() {
        assert_eq!(*b, if i == 15 { 0x10 } else { 0x00 }, "byte {i}");
    }
    official_mono_row(&mut row, &bw, &red, 11, false);
    assert!(row.iter().all(|b| *b == 0xFF));
    // The red plane inks too.
    official_mono_row(&mut row, &red, &bw, 10, false);
    assert_eq!(row[15], 0xEF);
    let mut gray = [0xAAu8; 100];
    gray_plane_row(&mut gray, &bw, 10);
    for (i, b) in gray.iter().enumerate() {
        assert_eq!(*b, if i == 84 { 0x08 } else { 0x00 }, "byte {i}");
    }
}

#[test]
fn refresh_policy_spends_the_partial_budget() {
    let mut p = RefreshPolicy::new();
    assert_eq!(p.mono_refresh(true), MonoRefresh::Full);
    assert!(p.mark_needs_full(Mark::Disk { x: 1, y: 2, r: 3 }));
    p.note_full();
    assert!(!p.mark_needs_full(Mark::Disk { x: 1, y: 2, r: 3 }));
    assert!(p.mark_needs_full(Mark::Blank));
    for _ in 0..18 {
        assert_eq!(p.mono_refresh(false), MonoRefresh::Partial);
        assert!(!p.mark_needs_full(Mark::Disk { x: 1, y: 2, r: 3 }));
        p.note_partial();
    }
    assert_eq!(p.mono_refresh(false), MonoRefresh::Full);
    // The nineteenth mark takes a full refresh first.
    assert!(p.mark_needs_full(Mark::Disk { x: 1, y: 2, r: 3 }));
    assert_eq!(p.mono_refresh(true), MonoRefresh::Partial);
    p.note_full();
    assert_eq!(p.mono_refresh(false), MonoRefresh::Partial);
    p.note_gray();
    assert_eq!(p.mono_refresh(true), MonoRefresh::Full);
}

#[test]
fn set_plane_reads_back() {
    let mut plane = vec![0u8; 48_000];
    set_plane(&mut plane, 10, 123, true);
    assert_eq!(plane[123 * 60 + 1], 0x20);
    assert!(official_bit(&plane, 10, 123));
    assert!(!official_bit(&plane, 11, 123));
    set_plane(&mut plane, 11, 123, true);
    set_plane(&mut plane, 10, 123, false);
    assert!(!official_bit(&plane, 10, 123));
    assert!(official_bit(&plane, 11, 123));
    set_plane(&mut plane, 480, 0, true);
    set_plane(&mut plane, 0, 800, true);
    assert_eq!(plane.iter().filter(|b| **b != 0).count(), 1);
}

#[test]
fn nav_short_presses_and_holds() {
    // Short A: previous card.
    let mut w = NavWait::new(true, true);
    let r = w.buttons(false, true, 100);
    assert_eq!((r.ask_tone, r.nav), (false, None));
    assert_eq!(r.edge.unwrap().btn_a, Some((true, false)));
    let r = w.buttons(false, true, 400);
    assert_eq!(r.nav, None);
    let r = w.buttons(true, true, 500);
    assert_eq!(r.nav, Some(Nav::Prev));
    // Short B: next card.
    let mut w = NavWait::new(true, true);
    assert_eq!(w.buttons(true, false, 0).nav, Some(Nav::Next));
    // A held 1 s: one tone dump, and the release is not a card step.
    let mut w = NavWait::new(true, true);
    assert!(!w.buttons(false, true, 1_000).ask_tone);
    assert!(w.buttons(false, true, 2_000).ask_tone);
    assert!(!w.buttons(false, true, 2_500).ask_tone);
    assert_eq!(w.buttons(true, true, 2_600).nav, None);
    // A held 2 s: sleep.
    let mut w = NavWait::new(true, true);
    w.buttons(false, true, 0);
    w.buttons(false, true, 1_200);
    assert_eq!(w.buttons(false, true, 2_000).nav, Some(Nav::Sleep));
}

#[test]
fn nav_refreshes_on_timer_and_bluetooth() {
    let mut w = NavWait::new(true, true);
    assert_eq!(w.after_touch(true, None), Some(Nav::Refresh));
    assert_eq!(w.t_ms, 0);
    let mut polls = 0;
    loop {
        polls += 1;
        if w.after_touch(false, Some(LEGEND_AUTO_REFRESH_MS)).is_some() {
            break;
        }
    }
    assert_eq!(polls, 6_000);
    let mut w = NavWait::new(true, true);
    for _ in 0..10_000 {
        assert_eq!(w.after_touch(false, None), None);
    }
}

#[test]
fn heartbeat_schedule() {
    assert!(pin_or_shared(Some(true), false));
    assert!(!pin_or_shared(None, false));
    let mut h = HeartbeatState::new(true, true, true);
    let b = h.poll(true, true, true, false);
    assert_eq!(b.banner_t_s, Some(0));
    assert_eq!(b.heartbeat.map(|s| (s.t_s, s.btn_a, s.btn_b)), Some((0, true, true)));
    assert!(b.edge.is_none() && b.touch_idle.is_none() && !b.ask_tone);
    let mut beats = 0;
    let mut banners = 0;
    for i in 1..=400u32 {
        let b = h.poll(true, true, true, false);
        if let Some(s) = b.heartbeat {
            beats += 1;
            assert_eq!(s.t_s, i * 50 / 1000);
        }
        if b.banner_t_s.is_some() {
            banners += 1;
            assert!(b.heartbeat.is_some());
        }
    }
    assert_eq!((beats, banners), (20, 2));
    // Buttons owned here: edges and the tone dump on A going down.
    let b = h.poll(false, true, false, false);
    assert_eq!(b.touch_idle, Some(false));
    assert_eq!(b.edge.map(|e| (e.t_ms, e.btn_a, e.btn_b)), Some((20_050, Some((true, false)), None)));
    assert!(b.ask_tone);
    // Buttons owned by the UI: no edge here.
    let b = h.poll(true, false, false, true);
    assert!(b.edge.is_none() && !b.ask_tone && b.touch_idle.is_none());
}

#[test]
fn pairing_status_reads_back() {
    let mut r = RadioShared::new();
    assert_eq!(r.pair_status(), BlePairStatus::Advertising);
    assert_eq!(r.state_rev(), 0);
    let all = [
        BlePairStatus::Connected,
        BlePairStatus::Pairing(123_456),
        BlePairStatus::Success,
        BlePairStatus::Failed(BleFailReason::PasskeyEntryFailed),
        BlePairStatus::Failed(BleFailReason::ConfirmValueFailed),
        BlePairStatus::Failed(BleFailReason::Timeout),
        BlePairStatus::Failed(BleFailReason::AuthenticationRequirements),
        BlePairStatus::Failed(BleFailReason::RepeatedAttempts),
        BlePairStatus::Failed(BleFailReason::Other),
        BlePairStatus::Disabled,
        BlePairStatus::Advertising,
    ];
    for (i, s) in all.iter().enumerate() {
        r.set_pair_status(*s);
        assert_eq!(r.pair_status(), *s);
        assert_eq!(r.state_rev(), i as u32 + 1);
    }
    r.rev = u32::MAX;
    r.set_pair_status(BlePairStatus::Success);
    assert_eq!(r.state_rev(), 0);
    assert_eq!(BleFailReason::Timeout.as_str(), "Pairing timed out / disconnected");
    assert_eq!(BleFailReason::Other.as_str(), "Pairing rejected by device");
    assert_eq!(r.last_wifi(), None);
    r.store_wifi(17);
    assert_eq!(r.last_wifi(), Some(17));
    assert_eq!(r.last_ble(), None);
}

#[test]
fn lora_probe_keeps_a_healthy_status_only() {
    let mut m = LoraShared::new();
    assert!(m.record_probe(Some(RadioStatus::from_byte(0x24))));
    assert_eq!(m.raw_status, 0x24);
    assert_eq!(
        m.card_state(),
        LoraCardState::Idle { raw_status: 0x24, mode: ChipMode::StbyRc, cmd: CommandStatus::DataAvailable }
    );
    // Command status 4 (processing error): the card reads as absent.
    assert!(!m.record_probe(Some(RadioStatus::from_byte(0x28))));
    assert_eq!(m.raw_status, 0x24);
    assert_eq!(m.card_state(), LoraCardState::Unpopulated);
    assert!(!m.record_probe(None));
    assert_eq!(m.card_state(), LoraCardState::Unpopulated);
}

#[test]
fn panel_paint_runs_a_full_refresh_every_nineteenth_mark() {
    let mut p = RefreshPolicy::new();
    let dot = Mark::Disk { x: 100, y: 200, r: 8 };
    let fulls = |s: &Vec<PanelStep>| s.iter().filter(|x| **x == PanelStep::Stamp(OtpRefresh::MonoFull)).count();
    let partials = |s: &Vec<PanelStep>| s.iter().filter(|x| **x == PanelStep::Stamp(OtpRefresh::Partial)).count();
    // No baseline yet: a full refresh, then the mark's partial.
    let s = paint(&mut p, dot);
    assert_eq!((fulls(&s), partials(&s), s.len()), (1, 1, 25));
    assert_eq!(s[0], PanelStep::ResetPulse);
    assert_eq!(p.partials, 1);
    for _ in 0..17 {
        let s = paint(&mut p, dot);
        assert_eq!((fulls(&s), partials(&s)), (0, 1));
        assert_eq!(s[3], PanelStep::WriteMark(0x24, dot));
        assert_eq!(s[8], PanelStep::WriteMark(0x26, dot));
    }
    assert_eq!(p.partials, 18);
    let s = paint(&mut p, dot);
    assert_eq!((fulls(&s), partials(&s)), (1, 1));
    assert_eq!(p.partials, 1);
    let s = paint(&mut p, Mark::Blank);
    assert_eq!((fulls(&s), partials(&s), s.len()), (1, 0, 14));
    assert_eq!(s[3], PanelStep::WriteSolid(0x24, 0x00));
    assert_eq!(p.partials, 0);
    let s = paint_mono_fast(&mut p, false);
    assert_eq!((fulls(&s), partials(&s)), (0, 1));
    assert_eq!(s[3], PanelStep::WriteFrame(0x24, false));
    let s = paint_gray(&mut p);
    assert_eq!(s.len(), 10);
    assert_eq!(s[8], PanelStep::Stamp(OtpRefresh::GrayFull));
    assert!(!p.mono_ready);
    let s = paint_mono_fast(&mut p, true);
    assert_eq!(fulls(&s), 1);
    assert_eq!(s[3], PanelStep::WriteFrame(0x24, true));
    let s = enter_mono(&mut p);
    assert_eq!(s[7], PanelStep::WriteSolid(0x24, 0xFF));
}
