//! Page-space geometry of the Bluetooth, Wi-Fi survey and access-point
//! cards, portrait (upright) and landscape. The caller passes the page size
//! and whether the page is upright; the drawing itself, text and shapes
//! through the graphics stack, runs outside this library.

use vstd::prelude::*;
use crate::firmware::draw::{spec_wifi_action_rect, wifi_action_rect};

verus! {


/// Geometry shared by the Wi-Fi survey and access-point cards; the fields a card does not use are 0.
#[derive(Debug, Clone, Copy, PartialEq, Eq, Structural)]
pub struct WifiCardLayout {
    /// Horizontal centre of the page.
    pub cx: i32,
    /// X of the rule.
    pub rule_x: u16,
    /// Width of the rule.
    pub rule_w: u16,
    /// Y of the title.
    pub title_y: i32,
    /// Y of the header rule.
    pub header_bar_y: u16,
    /// X of the banner.
    pub banner_x: u16,
    /// Y of the banner.
    pub banner_y: u16,
    /// Width of the banner.
    pub banner_w: u16,
    /// Height of the banner.
    pub banner_h: u16,
    /// Y of the status line.
    pub status_y: i32,
    /// X of the body text.
    pub body_x: u16,
    /// Y of the channel title.
    pub ch_title_y: i32,
    /// Y of the channel line 1.
    pub ch_line1_y: i32,
    /// Y of the channel line 2.
    pub ch_line2_y: i32,
    /// Y of the channel line 3.
    pub ch_line3_y: i32,
    /// Y of the channel divider.
    pub ch_div_y: u16,
    /// Y of the access-point table divider.
    pub ap_div_y: u16,
    /// Y of the access-point table title.
    pub ap_title_y: i32,
    /// X of the table.
    pub table_x: u16,
    /// Y of the access-point table header.
    pub ap_header_y: i32,
    /// Y of the access-point table first row.
    pub ap_row0_y: i32,
    /// Line spacing of the access-point table row.
    pub ap_row_step: i32,
    /// Y of the access-point table "no access points" line.
    pub ap_empty_y: i32,
    /// Y of the guide divider.
    pub guide_div_y: u16,
    /// Y of the guide title.
    pub guide_title_y: i32,
    /// X of the guide.
    pub guide_x: u16,
    /// Y of the first guide line.
    pub guide_y0: i32,
    /// Line spacing of the guide.
    pub guide_step: i32,
    /// Y of the footer rule.
    pub footer_bar_y: u16,
    /// Y of the footer.
    pub footer_y: i32,
    /// X of the credential box.
    pub cred_x: u16,
    /// Y of the credential box.
    pub cred_y: u16,
    /// Width of the credential box.
    pub cred_w: u16,
    /// Height of the credential box.
    pub cred_h: u16,
    /// Y of the credential box title.
    pub cred_title_y: i32,
    /// Y of the network name.
    pub ssid_y: i32,
    /// Y of the password cell label.
    pub pass_label_y: i32,
    /// X of the first password cell.
    pub pass_x0: u16,
    /// Y of the password cell.
    pub pass_y: u16,
    /// Width of the password cell.
    pub pass_w: u16,
    /// Height of the password cell.
    pub pass_h: u16,
    /// Spacing of the password cells.
    pub pass_pitch: u16,
    /// Text baseline of the password cell.
    pub pass_baseline: i32,
    /// Y of the address label.
    pub url_label_y: i32,
    /// Y of the address.
    pub url_y: i32,
    /// Y of the telemetry divider.
    pub telem_div_y: u16,
    /// Y of the telemetry title.
    pub telem_title_y: i32,
    /// X of the telemetry.
    pub telem_x: u16,
    /// Y of the telemetry line 1.
    pub telem_line1_y: i32,
    /// Y of the telemetry line 2.
    pub telem_line2_y: i32,
    /// Y of the telemetry line 3.
    pub telem_line3_y: i32,
}

/// Geometry of the Bluetooth pairing card.
#[derive(Debug, Clone, Copy, PartialEq, Eq, Structural)]
pub struct BleLayout {
    /// Horizontal center of the current page.
    pub cx: i32,
    /// Centered title baseline.
    pub title_y: i32,
    /// Hairline under the title.
    pub header_bar_y: u16,
    /// `Device: PaperMono` baseline.
    pub device_y: i32,
    /// Status-specific instruction baseline.
    pub instruction_y: i32,
    /// Outer PIN frame origin X.
    pub pin_frame_x: u16,
    /// Outer PIN frame origin Y.
    pub pin_frame_y: u16,
    /// Outer PIN frame width.
    pub pin_frame_w: u16,
    /// Outer PIN frame height.
    pub pin_frame_h: u16,
    /// First digit-box origin X.
    pub digit_x0: u16,
    /// Digit-box origin Y (also the Paired banner Y).
    pub digit_y: u16,
    /// Digit-box width.
    pub digit_w: u16,
    /// Digit-box height.
    pub digit_h: u16,
    /// Distance from one digit-box left edge to the next.
    pub digit_pitch: u16,
    /// `embedded-graphics` baseline for a digit inside its box.
    pub digit_baseline: i32,
    /// Wide Paired banner origin X.
    pub banner_x: u16,
    /// Wide Paired banner width.
    pub banner_w: u16,
    /// Rule X (header / mid / footer share this).
    pub rule_x: u16,
    /// Rule width.
    pub rule_w: u16,
    /// Hairline under the PIN frame.
    pub mid_bar_y: u16,
    /// Terminal-state outline origin X.
    pub status_x: u16,
    /// Terminal-state outline origin Y.
    pub status_y: u16,
    /// Terminal-state outline width.
    pub status_w: u16,
    /// Terminal-state outline height.
    pub status_h: u16,
    /// SUCCESS / FAILED / Status: baseline.
    pub status_text_y: i32,
    /// Detail line under the status word.
    pub status_detail_y: i32,
    /// Optional third status line (fail retry).
    pub status_hint_y: i32,
    /// Light rule above the tutorial.
    pub tutorial_bar_y: u16,
    /// `HOW TO PAIR` baseline.
    pub howto_y: i32,
    /// First tutorial step X.
    pub step_x: u16,
    /// First tutorial step baseline.
    pub step_y0: i32,
    /// Footer hairline Y.
    pub footer_bar_y: u16,
    /// Footer navigation baseline.
    pub footer_y: i32,
}

/// The survey table: a portrait table for the upright page; sideways, rules, banner, guide and footer follow the page size and the start/stop button.
pub open spec fn spec_survey_layout(page_w: u16, page_h: u16, portrait: bool) -> WifiCardLayout {
    let cx: i32 = (page_w / 2) as i32;
    let rule_x: u16 = 30;
    let rule_w: u16 = page_w.saturating_sub(60);
    let btn_y: u16 = spec_wifi_action_rect(page_w, page_h, portrait).1;
    if portrait {
        WifiCardLayout {
            cx,
            rule_x,
            rule_w,
            title_y: 50,
            header_bar_y: 70,
            banner_x: 50,
            banner_y: 85,
            banner_w: 380,
            banner_h: 45,
            status_y: 115,
            body_x: 45,
            ch_title_y: 155,
            ch_line1_y: 182,
            ch_line2_y: 210,
            ch_line3_y: 238,
            ch_div_y: 255,
            ap_div_y: 265,
            ap_title_y: 285,
            table_x: 35,
            ap_header_y: 312,
            ap_row0_y: 338,
            ap_row_step: 28,
            ap_empty_y: 375,
            guide_div_y: 495,
            guide_title_y: 520,
            guide_x: 40,
            guide_y0: 550,
            guide_step: 26,
            footer_bar_y: 740,
            footer_y: 770,
            cred_x: 0,
            cred_y: 0,
            cred_w: 0,
            cred_h: 0,
            cred_title_y: 0,
            ssid_y: 0,
            pass_label_y: 0,
            pass_x0: 0,
            pass_y: 0,
            pass_w: 0,
            pass_h: 0,
            pass_pitch: 0,
            pass_baseline: 0,
            url_label_y: 0,
            url_y: 0,
            telem_div_y: 0,
            telem_title_y: 0,
            telem_x: 0,
            telem_line1_y: 0,
            telem_line2_y: 0,
            telem_line3_y: 0,
        }
    } else {
        let footer_bar_y: u16 = page_h.saturating_sub(40);
        WifiCardLayout {
            cx,
            rule_x: 40,
            rule_w: page_w.saturating_sub(80),
            title_y: 24,
            header_bar_y: 36,
            banner_x: 60,
            banner_y: 44,
            banner_w: page_w.saturating_sub(120),
            banner_h: 36,
            status_y: 68,
            body_x: 50,
            ch_title_y: 96,
            ch_line1_y: 118,
            ch_line2_y: 138,
            ch_line3_y: 158,
            ch_div_y: 168,
            ap_div_y: 172,
            ap_title_y: 192,
            table_x: 45,
            ap_header_y: 212,
            ap_row0_y: 232,
            ap_row_step: 22,
            ap_empty_y: 250,
            guide_div_y: btn_y.saturating_sub(90),
            guide_title_y: btn_y.saturating_sub(78) as i32,
            guide_x: 50,
            guide_y0: btn_y.saturating_sub(56) as i32,
            guide_step: 20,
            footer_bar_y,
            footer_y: page_h.saturating_sub(16) as i32,
            cred_x: 0,
            cred_y: 0,
            cred_w: 0,
            cred_h: 0,
            cred_title_y: 0,
            ssid_y: 0,
            pass_label_y: 0,
            pass_x0: 0,
            pass_y: 0,
            pass_w: 0,
            pass_h: 0,
            pass_pitch: 0,
            pass_baseline: 0,
            url_label_y: 0,
            url_y: 0,
            telem_div_y: 0,
            telem_title_y: 0,
            telem_x: 0,
            telem_line1_y: 0,
            telem_line2_y: 0,
            telem_line3_y: 0,
        }
    }
}

/// The access-point table, portrait or sideways as for the survey card, with the credential box, password cells, address and telemetry lines.
pub open spec fn spec_hotspot_layout(page_w: u16, page_h: u16, portrait: bool) -> WifiCardLayout {
    let cx: i32 = (page_w / 2) as i32;
    let btn_y: u16 = spec_wifi_action_rect(page_w, page_h, portrait).1;
    if portrait {
        WifiCardLayout {
            cx,
            rule_x: 30,
            rule_w: 420,
            title_y: 50,
            header_bar_y: 70,
            banner_x: 50,
            banner_y: 85,
            banner_w: 380,
            banner_h: 45,
            status_y: 115,
            body_x: 60,
            ch_title_y: 0,
            ch_line1_y: 0,
            ch_line2_y: 0,
            ch_line3_y: 0,
            ch_div_y: 0,
            ap_div_y: 0,
            ap_title_y: 0,
            table_x: 0,
            ap_header_y: 0,
            ap_row0_y: 0,
            ap_row_step: 0,
            ap_empty_y: 0,
            guide_div_y: 505,
            guide_title_y: 528,
            guide_x: 40,
            guide_y0: 556,
            guide_step: 26,
            footer_bar_y: 740,
            footer_y: 770,
            cred_x: 40,
            cred_y: 145,
            cred_w: 400,
            cred_h: 205,
            cred_title_y: 170,
            ssid_y: 198,
            pass_label_y: 222,
            pass_x0: 72,
            pass_y: 230,
            pass_w: 36,
            pass_h: 44,
            pass_pitch: 42,
            pass_baseline: 260,
            url_label_y: 302,
            url_y: 328,
            telem_div_y: 365,
            telem_title_y: 388,
            telem_x: 50,
            telem_line1_y: 416,
            telem_line2_y: 444,
            telem_line3_y: 472,
        }
    } else {
        let footer_bar_y: u16 = page_h.saturating_sub(40);
        let cred_w: u16 = page_w.saturating_sub(80);
        WifiCardLayout {
            cx,
            rule_x: 40,
            rule_w: page_w.saturating_sub(80),
            title_y: 22,
            header_bar_y: 34,
            banner_x: 60,
            banner_y: 40,
            banner_w: page_w.saturating_sub(120),
            banner_h: 32,
            status_y: 62,
            body_x: 70,
            ch_title_y: 0,
            ch_line1_y: 0,
            ch_line2_y: 0,
            ch_line3_y: 0,
            ch_div_y: 0,
            ap_div_y: 0,
            ap_title_y: 0,
            table_x: 0,
            ap_header_y: 0,
            ap_row0_y: 0,
            ap_row_step: 0,
            ap_empty_y: 0,
            guide_div_y: btn_y.saturating_sub(78),
            guide_title_y: btn_y.saturating_sub(66) as i32,
            guide_x: 50,
            guide_y0: btn_y.saturating_sub(48) as i32,
            guide_step: 18,
            footer_bar_y,
            footer_y: page_h.saturating_sub(16) as i32,
            cred_x: 40,
            cred_y: 78,
            cred_w,
            cred_h: 130,
            cred_title_y: 96,
            ssid_y: 116,
            pass_label_y: 134,
            pass_x0: 120,
            pass_y: 140,
            pass_w: 36,
            pass_h: 36,
            pass_pitch: 42,
            pass_baseline: 164,
            url_label_y: 186,
            url_y: 204,
            telem_div_y: 220,
            telem_title_y: 238,
            telem_x: 60,
            telem_line1_y: 256,
            telem_line2_y: 274,
            telem_line3_y: 292,
        }
    }
}

/// The Bluetooth table: centred on `page_w`; the portrait or the landscape constants.
pub open spec fn spec_ble_layout(page_w: u16, portrait: bool) -> BleLayout {
    let cx: i32 = (page_w / 2) as i32;
    if portrait {
        BleLayout {
            cx,
            title_y: 50,
            header_bar_y: 70,
            device_y: 110,
            instruction_y: 145,
            pin_frame_x: 60,
            pin_frame_y: 175,
            pin_frame_w: 360,
            pin_frame_h: 90,
            digit_x0: 90,
            digit_y: 195,
            digit_w: 40,
            digit_h: 50,
            digit_pitch: 52,
            digit_baseline: 227,
            banner_x: 90,
            banner_w: 300,
            rule_x: 30,
            rule_w: 420,
            mid_bar_y: 295,
            status_x: 100,
            status_y: 315,
            status_w: 280,
            status_h: 45,
            status_text_y: 345,
            status_detail_y: 395,
            status_hint_y: 425,
            tutorial_bar_y: 480,
            howto_y: 510,
            step_x: 45,
            step_y0: 545,
            footer_bar_y: 720,
            footer_y: 755,
        }
    } else {
        BleLayout {
            cx,
            title_y: 28,
            header_bar_y: 42,
            device_y: 64,
            instruction_y: 86,
            pin_frame_x: 220,
            pin_frame_y: 96,
            pin_frame_w: 360,
            pin_frame_h: 80,
            digit_x0: 250,
            digit_y: 112,
            digit_w: 40,
            digit_h: 48,
            digit_pitch: 52,
            digit_baseline: 144,
            banner_x: 250,
            banner_w: 300,
            rule_x: 40,
            rule_w: 720,
            mid_bar_y: 188,
            status_x: 260,
            status_y: 200,
            status_w: 280,
            status_h: 40,
            status_text_y: 226,
            status_detail_y: 250,
            status_hint_y: 270,
            tutorial_bar_y: 278,
            howto_y: 300,
            step_x: 40,
            step_y0: 328,
            footer_bar_y: 420,
            footer_y: 452,
        }
    }
}

impl WifiCardLayout {

    /// The channel-survey card on a `page_w` x `page_h` page.
    pub fn survey(page_w: u16, page_h: u16, portrait: bool) -> (l: WifiCardLayout)
        ensures
            l == spec_survey_layout(page_w, page_h, portrait),
    {
        let cx: i32 = (page_w / 2) as i32;
        let rule_x: u16 = 30;
        let rule_w: u16 = page_w.saturating_sub(60);
        let btn_y: u16 = wifi_action_rect(page_w, page_h, portrait).1;
        if portrait {
            WifiCardLayout {
                cx,
                rule_x,
                rule_w,
                title_y: 50,
                header_bar_y: 70,
                banner_x: 50,
                banner_y: 85,
                banner_w: 380,
                banner_h: 45,
                status_y: 115,
                body_x: 45,
                ch_title_y: 155,
                ch_line1_y: 182,
                ch_line2_y: 210,
                ch_line3_y: 238,
                ch_div_y: 255,
                ap_div_y: 265,
                ap_title_y: 285,
                table_x: 35,
                ap_header_y: 312,
                ap_row0_y: 338,
                ap_row_step: 28,
                ap_empty_y: 375,
                guide_div_y: 495,
                guide_title_y: 520,
                guide_x: 40,
                guide_y0: 550,
                guide_step: 26,
                footer_bar_y: 740,
                footer_y: 770,
                cred_x: 0,
                cred_y: 0,
                cred_w: 0,
                cred_h: 0,
                cred_title_y: 0,
                ssid_y: 0,
                pass_label_y: 0,
                pass_x0: 0,
                pass_y: 0,
                pass_w: 0,
                pass_h: 0,
                pass_pitch: 0,
                pass_baseline: 0,
                url_label_y: 0,
                url_y: 0,
                telem_div_y: 0,
                telem_title_y: 0,
                telem_x: 0,
                telem_line1_y: 0,
                telem_line2_y: 0,
                telem_line3_y: 0,
            }
        } else {
            let footer_bar_y: u16 = page_h.saturating_sub(40);
            WifiCardLayout {
                cx,
                rule_x: 40,
                rule_w: page_w.saturating_sub(80),
                title_y: 24,
                header_bar_y: 36,
                banner_x: 60,
                banner_y: 44,
                banner_w: page_w.saturating_sub(120),
                banner_h: 36,
                status_y: 68,
                body_x: 50,
                ch_title_y: 96,
                ch_line1_y: 118,
                ch_line2_y: 138,
                ch_line3_y: 158,
                ch_div_y: 168,
                ap_div_y: 172,
                ap_title_y: 192,
                table_x: 45,
                ap_header_y: 212,
                ap_row0_y: 232,
                ap_row_step: 22,
                ap_empty_y: 250,
                guide_div_y: btn_y.saturating_sub(90),
                guide_title_y: btn_y.saturating_sub(78) as i32,
                guide_x: 50,
                guide_y0: btn_y.saturating_sub(56) as i32,
                guide_step: 20,
                footer_bar_y,
                footer_y: page_h.saturating_sub(16) as i32,
                cred_x: 0,
                cred_y: 0,
                cred_w: 0,
                cred_h: 0,
                cred_title_y: 0,
                ssid_y: 0,
                pass_label_y: 0,
                pass_x0: 0,
                pass_y: 0,
                pass_w: 0,
                pass_h: 0,
                pass_pitch: 0,
                pass_baseline: 0,
                url_label_y: 0,
                url_y: 0,
                telem_div_y: 0,
                telem_title_y: 0,
                telem_x: 0,
                telem_line1_y: 0,
                telem_line2_y: 0,
                telem_line3_y: 0,
            }
        }
    }


    /// The access-point card on a `page_w` x `page_h` page.
    pub fn hotspot(page_w: u16, page_h: u16, portrait: bool) -> (l: WifiCardLayout)
        ensures
            l == spec_hotspot_layout(page_w, page_h, portrait),
    {
        let cx: i32 = (page_w / 2) as i32;
        let btn_y: u16 = wifi_action_rect(page_w, page_h, portrait).1;
        if portrait {
            WifiCardLayout {
                cx,
                rule_x: 30,
                rule_w: 420,
                title_y: 50,
                header_bar_y: 70,
                banner_x: 50,
                banner_y: 85,
                banner_w: 380,
                banner_h: 45,
                status_y: 115,
                body_x: 60,
                ch_title_y: 0,
                ch_line1_y: 0,
                ch_line2_y: 0,
                ch_line3_y: 0,
                ch_div_y: 0,
                ap_div_y: 0,
                ap_title_y: 0,
                table_x: 0,
                ap_header_y: 0,
                ap_row0_y: 0,
                ap_row_step: 0,
                ap_empty_y: 0,
                guide_div_y: 505,
                guide_title_y: 528,
                guide_x: 40,
                guide_y0: 556,
                guide_step: 26,
                footer_bar_y: 740,
                footer_y: 770,
                cred_x: 40,
                cred_y: 145,
                cred_w: 400,
                cred_h: 205,
                cred_title_y: 170,
                ssid_y: 198,
                pass_label_y: 222,
                pass_x0: 72,
                pass_y: 230,
                pass_w: 36,
                pass_h: 44,
                pass_pitch: 42,
                pass_baseline: 260,
                url_label_y: 302,
                url_y: 328,
                telem_div_y: 365,
                telem_title_y: 388,
                telem_x: 50,
                telem_line1_y: 416,
                telem_line2_y: 444,
                telem_line3_y: 472,
            }
        } else {
            let footer_bar_y: u16 = page_h.saturating_sub(40);
            let cred_w: u16 = page_w.saturating_sub(80);
            WifiCardLayout {
                cx,
                rule_x: 40,
                rule_w: page_w.saturating_sub(80),
                title_y: 22,
                header_bar_y: 34,
                banner_x: 60,
                banner_y: 40,
                banner_w: page_w.saturating_sub(120),
                banner_h: 32,
                status_y: 62,
                body_x: 70,
                ch_title_y: 0,
                ch_line1_y: 0,
                ch_line2_y: 0,
                ch_line3_y: 0,
                ch_div_y: 0,
                ap_div_y: 0,
                ap_title_y: 0,
                table_x: 0,
                ap_header_y: 0,
                ap_row0_y: 0,
                ap_row_step: 0,
                ap_empty_y: 0,
                guide_div_y: btn_y.saturating_sub(78),
                guide_title_y: btn_y.saturating_sub(66) as i32,
                guide_x: 50,
                guide_y0: btn_y.saturating_sub(48) as i32,
                guide_step: 18,
                footer_bar_y,
                footer_y: page_h.saturating_sub(16) as i32,
                cred_x: 40,
                cred_y: 78,
                cred_w,
                cred_h: 130,
                cred_title_y: 96,
                ssid_y: 116,
                pass_label_y: 134,
                pass_x0: 120,
                pass_y: 140,
                pass_w: 36,
                pass_h: 36,
                pass_pitch: 42,
                pass_baseline: 164,
                url_label_y: 186,
                url_y: 204,
                telem_div_y: 220,
                telem_title_y: 238,
                telem_x: 60,
                telem_line1_y: 256,
                telem_line2_y: 274,
                telem_line3_y: 292,
            }
        }
    }


}

impl BleLayout {

    /// The Bluetooth card on a page `page_w` wide.
    pub fn for_rotation(page_w: u16, portrait: bool) -> (l: BleLayout)
        ensures
            l == spec_ble_layout(page_w, portrait),
    {
        let cx: i32 = (page_w / 2) as i32;
        if portrait {
            BleLayout {
                cx,
                title_y: 50,
                header_bar_y: 70,
                device_y: 110,
                instruction_y: 145,
                pin_frame_x: 60,
                pin_frame_y: 175,
                pin_frame_w: 360,
                pin_frame_h: 90,
                digit_x0: 90,
                digit_y: 195,
                digit_w: 40,
                digit_h: 50,
                digit_pitch: 52,
                digit_baseline: 227,
                banner_x: 90,
                banner_w: 300,
                rule_x: 30,
                rule_w: 420,
                mid_bar_y: 295,
                status_x: 100,
                status_y: 315,
                status_w: 280,
                status_h: 45,
                status_text_y: 345,
                status_detail_y: 395,
                status_hint_y: 425,
                tutorial_bar_y: 480,
                howto_y: 510,
                step_x: 45,
                step_y0: 545,
                footer_bar_y: 720,
                footer_y: 755,
            }
        } else {
            BleLayout {
                cx,
                title_y: 28,
                header_bar_y: 42,
                device_y: 64,
                instruction_y: 86,
                pin_frame_x: 220,
                pin_frame_y: 96,
                pin_frame_w: 360,
                pin_frame_h: 80,
                digit_x0: 250,
                digit_y: 112,
                digit_w: 40,
                digit_h: 48,
                digit_pitch: 52,
                digit_baseline: 144,
                banner_x: 250,
                banner_w: 300,
                rule_x: 40,
                rule_w: 720,
                mid_bar_y: 188,
                status_x: 260,
                status_y: 200,
                status_w: 280,
                status_h: 40,
                status_text_y: 226,
                status_detail_y: 250,
                status_hint_y: 270,
                tutorial_bar_y: 278,
                howto_y: 300,
                step_x: 40,
                step_y0: 328,
                footer_bar_y: 420,
                footer_y: 452,
            }
        }
    }
}

} // verus!
