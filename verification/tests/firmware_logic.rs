use papermono::firmware::mic::{decode_window, isqrt, pcm_energy, window_sample};
use papermono::firmware::panel::{fill_mark_row, ink_black, mark_hit, mode_title, official_bit, Mark};
use papermono::firmware::targets::{dist_px, scene, WalkEnd};
use papermono::firmware::touch_bus::{duty_from_page_y, flag, flag_u8, volume_from_page_y};

#[test]
fn isqrt_rounds_down() {
    let cases = [(0u64, 0u64), (1, 1), (2, 1), (3, 1), (4, 2), (15, 3), (16, 4), (17, 4), (1 << 40, 1 << 20)];
    for (n, r) in cases {
        assert_eq!(isqrt(n), r, "isqrt({n})");
    }
    assert_eq!(isqrt(u64::MAX), 4_294_967_295);
    for n in 0u64..2000 {
        let r = isqrt(n);
        assert!(r * r <= n && n < (r + 1) * (r + 1));
    }
}

#[test]
fn pcm_energy_of_small_windows() {
    assert_eq!(pcm_energy(&[]), (0, 0));
    assert_eq!(pcm_energy(&[3, -4]), (3, 4));
    assert_eq!(pcm_energy(&[i16::MIN]), (32768, 32768));
    assert_eq!(pcm_energy(&[100; 256]), (100, 100));
    assert_eq!(pcm_energy(&[0, 0, 0, 7]), (3, 7));
}

#[test]
fn window_decoding_and_sample() {
    assert_eq!(decode_window(&[0x01, 0x00, 0xFF, 0xFF, 0x07]), vec![1, -1]);
    assert_eq!(decode_window(&[0u8; 600]).len(), 256);
    assert_eq!(decode_window(&[0x00, 0x80]), vec![i16::MIN]);
    assert!(window_sample(&[]).is_none());
    let m = window_sample(&[3, -4]).unwrap();
    assert_eq!((m.rms, m.peak), (3, 4));
}

#[test]
fn distance_in_whole_pixels() {
    assert_eq!(dist_px(0, 0, 3, 4), 5);
    assert_eq!(dist_px(10, 10, 10, 10), 0);
    assert_eq!(dist_px(479, 799, 0, 0), 931);
    assert_eq!(dist_px(240, 400, 241, 401), 1);
}

#[test]
fn gutter_sliders_scale_from_the_bottom() {
    assert_eq!(duty_from_page_y(0, 800), 4095);
    assert_eq!(duty_from_page_y(799, 800), 0);
    assert_eq!(duty_from_page_y(400, 800), 2044);
    assert_eq!(duty_from_page_y(1000, 800), 0);
    assert_eq!(duty_from_page_y(0, 0), 0);
    assert_eq!(duty_from_page_y(0, 1), 0);
    assert_eq!(duty_from_page_y(0, 2), 4095);
    assert_eq!(volume_from_page_y(0, 480), 100);
    assert_eq!(volume_from_page_y(479, 480), 0);
    assert_eq!(volume_from_page_y(240, 480), 49);
    assert_eq!(flag(true, 0x10), 0x10);
    assert_eq!(flag(false, 0x10), 0);
    assert_eq!(flag_u8(true, 0x04), 0x04);
    assert_eq!(flag_u8(false, 0x04), 0);
}

#[test]
fn marks_cover_their_pixels() {
    let disk = Mark::Disk { x: 240, y: 400, r: 48 };
    assert!(mark_hit(disk, 240, 400));
    assert!(mark_hit(disk, 288, 400));
    assert!(!mark_hit(disk, 289, 400));
    assert!(!mark_hit(disk, 275, 435));
    let h = Mark::HLine { y: 400, half: 6 };
    assert!(mark_hit(h, 0, 406));
    assert!(!mark_hit(h, 0, 407));
    let v = Mark::VLine { x: 240, half: 6 };
    assert!(mark_hit(v, 234, 0));
    assert!(!mark_hit(v, 233, 0));
    assert!(!mark_hit(Mark::Blank, 0, 0));
}

#[test]
fn ink_black_clears_one_bit() {
    let mut row = [0xFFu8; 100];
    ink_black(&mut row, 0);
    assert_eq!(row[0], 0x7F);
    ink_black(&mut row, 9);
    assert_eq!(row[1], 0xBF);
    ink_black(&mut row, 800);
    assert!(row[2..].iter().all(|&b| b == 0xFF));
    let mut short = [0xFFu8; 1];
    ink_black(&mut short, 8);
    assert_eq!(short, [0xFF]);
}

fn black(row: &[u8], ram_x: usize) -> bool {
    (row[ram_x / 8] >> (7 - ram_x % 8)) & 1 == 0
}

#[test]
fn mark_rows_match_the_mark() {
    let mut row = [0u8; 100];
    fill_mark_row(&mut row, 0, Mark::Blank);
    assert_eq!(row, [0xFF; 100]);

    fill_mark_row(&mut row, 0, Mark::HLine { y: 400, half: 6 });
    for ram_x in 0..800 {
        assert_eq!(black(&row, ram_x), ram_x.abs_diff(400) <= 6, "ram_x {ram_x}");
    }

    fill_mark_row(&mut row, 240, Mark::Disk { x: 240, y: 400, r: 48 });
    for ram_x in 0..800 {
        assert_eq!(black(&row, ram_x), ram_x.abs_diff(400) <= 48, "ram_x {ram_x}");
    }

    fill_mark_row(&mut row, 100, Mark::VLine { x: 240, half: 6 });
    assert_eq!(row, [0xFF; 100]);

    let mut wide = [0u8; 102];
    fill_mark_row(&mut wide, 0, Mark::Blank);
    assert_eq!(&wide[100..], &[0xFF, 0xFF]);
}

#[test]
fn plane_lookup() {
    let mut plane = vec![0u8; 48_000];
    plane[0] = 0x80;
    plane[60] = 0x01;
    assert!(official_bit(&plane, 0, 0));
    assert!(!official_bit(&plane, 1, 0));
    assert!(official_bit(&plane, 7, 1));
    assert!(!official_bit(&plane, 480, 0));
    assert!(!official_bit(&plane, 0, 800));
    assert!(!official_bit(&plane[..10], 7, 1));
}

#[test]
fn panel_mode_titles() {
    assert_eq!(mode_title(1), "otp_gray");
    assert_eq!(mode_title(2), "otp_mono");
    assert_eq!(mode_title(3), "otp_partial");
    assert_eq!(mode_title(0), "otp_target");
    assert_eq!(mode_title(9), "otp_target");
}

#[test]
fn walk_steps_and_their_marks() {
    let (kind, x, y, r, mark) = scene(0);
    assert_eq!((kind, x, y, r), ("dot", 240, 400, 48));
    assert_eq!(mark, Mark::Disk { x: 240, y: 400, r: 48 });
    assert_eq!(scene(3).4, Mark::Disk { x: 80, y: 720, r: 48 });
    assert_eq!(scene(9).4, Mark::Disk { x: 400, y: 720, r: 48 });
    assert_eq!(scene(5), ("slide_x", 240, 400, 6, Mark::HLine { y: 400, half: 6 }));
    assert_eq!(scene(6), ("slide_y", 240, 400, 6, Mark::VLine { x: 240, half: 6 }));
    for id in 0..=6u8 {
        let (_, tx, ty, _, mark) = scene(id);
        assert!(mark_hit(mark, tx, ty));
    }
    assert_ne!(WalkEnd::Done, WalkEnd::AbortNext);
}
