//! What the LoRa card shows: the registers that the radio task fills after
//! a probe, a ping, a listen window or a channel sweep, and how the card
//! state and the sweep results are read back from them.

use vstd::prelude::*;
use crate::radios::lora::{
    spec_radio_status, ChipMode, CommandStatus, RadioStatus, FREQ_RX_SNIFFER_PRI_HZ,
    FREQ_RX_SNIFFER_SEC_HZ,
};

verus! {

/// US915 uplink slots swept (902.125 MHz .. 927.875 MHz, 250 kHz apart).
pub const SCAN_SLOTS: usize = 104;

/// Slots visited in one sweep: slots 61..=63 are visited twice.
pub const SWEEP_LEN: usize = 107;

/// RSSI (dBm) above which a slot counts as active.
pub const ACTIVE_RSSI_DBM: i16 = -105;

/// Tone (ms) when a packet was heard on a slot.
pub const PACKET_TONE_MS: u32 = 80;

/// Tone (ms) when a slot was only active.
pub const ACTIVE_TONE_MS: u32 = 25;

/// What the LoRa card shows.
#[derive(Debug, Clone, Copy, PartialEq, Eq)]
pub enum LoraCardState {
    /// No radio on this board.
    Unpopulated,
    /// Radio probed and parked in standby.
    Idle {
        /// Raw `GetStatus` byte.
        raw_status: u8,
        /// Decoded chip mode.
        mode: ChipMode,
        /// Decoded status of the last command.
        cmd: CommandStatus,
    },
    /// A test ping was sent.
    Transmitted {
        /// Carrier (kHz).
        freq_khz: u32,
        /// Output power (dBm).
        pwr_dbm: i8,
        /// Time on air (ms).
        time_ms: u32,
        /// `TX_DONE` was raised.
        ok: bool,
    },
    /// A packet arrived in the listen window.
    Received {
        /// Frequency listened on (kHz).
        freq_khz: u32,
        /// Packet RSSI (dBm).
        rssi: i16,
        /// Packet SNR (dB).
        snr: i8,
        /// Payload length.
        len: u8,
        /// First four payload bytes.
        preview: [u8; 4],
    },
    /// The listen window closed without a packet.
    ListenQuiet {
        /// Frequency listened on (kHz).
        freq_khz: u32,
        /// Noise floor (dBm).
        ambient_rssi: i16,
    },
    /// A listen window is open.
    Listening {
        /// Frequency listened on (kHz).
        freq_khz: u32,
    },
}

/// Results of the US915 channel sweep.
#[derive(Debug, Clone, Copy)]
pub struct LoraScanData {
    /// A sweep is running.
    pub scanning: bool,
    /// Completed sweeps.
    pub sweeps: u16,
    /// Slot probed last.
    pub current_slot: u8,
    /// Packets heard over the session.
    pub total_packets: u16,
    /// Slot of the strongest RSSI seen.
    pub peak_slot: u8,
    /// Strongest RSSI seen (dBm).
    pub peak_rssi: i16,
    /// Active samples per slot.
    pub hits: [u8; 104],
}

impl Default for LoraScanData {
    fn default() -> (d: LoraScanData)
        ensures
            !d.scanning,
            d.sweeps == 0,
            d.current_slot == 0,
            d.total_packets == 0,
            d.peak_slot == 0,
            d.peak_rssi == -128,
            forall|i: int| 0 <= i < SCAN_SLOTS ==> d.hits@[i] == 0,
    {
        LoraScanData {
            scanning: false,
            sweeps: 0,
            current_slot: 0,
            total_packets: 0,
            peak_slot: 0,
            peak_rssi: -128,
            hits: [0u8; 104],
        }
    }
}

/// `v + 1`, stopping at the type's top.
pub open spec fn sat_inc8(v: u8) -> u8 {
    if v == 255 { 255 } else { (v + 1) as u8 }
}

/// `v + 1`, stopping at the type's top.
pub open spec fn sat_inc16(v: u16) -> u16 {
    if v == 65535 { 65535 } else { (v + 1) as u16 }
}

/// Whether a slot sample counts as active: a packet, or RSSI above
/// [`ACTIVE_RSSI_DBM`].
pub open spec fn is_hit(rssi: i16, packet: bool) -> bool {
    packet || rssi > ACTIVE_RSSI_DBM
}

impl LoraScanData {
    /// Records one probed slot: its RSSI, whether a packet arrived. Returns
    /// the tone to play (ms), if any: [`PACKET_TONE_MS`] for a packet,
    /// [`ACTIVE_TONE_MS`] for an active slot.
    pub fn record(&mut self, slot: u8, rssi: i16, packet: bool) -> (tone: Option<u32>)
        requires
            slot < SCAN_SLOTS,
        ensures
            tone == (if packet {
                Some(PACKET_TONE_MS)
            } else if is_hit(rssi, packet) {
                Some(ACTIVE_TONE_MS)
            } else {
                None
            }),
            final(self).current_slot == slot,
            rssi > old(self).peak_rssi ==> final(self).peak_rssi == rssi && final(self).peak_slot == slot,
            rssi <= old(self).peak_rssi ==> final(self).peak_rssi == old(self).peak_rssi
                && final(self).peak_slot == old(self).peak_slot,
            final(self).hits@ == (if is_hit(rssi, packet) {
                old(self).hits@.update(slot as int, sat_inc8(old(self).hits@[slot as int]))
            } else {
                old(self).hits@
            }),
            final(self).total_packets == (if packet {
                sat_inc16(old(self).total_packets)
            } else {
                old(self).total_packets
            }),
            final(self).scanning == old(self).scanning,
            final(self).sweeps == old(self).sweeps,
    {
        let hit = packet || rssi > ACTIVE_RSSI_DBM;
        self.current_slot = slot;
        if rssi > self.peak_rssi {
            self.peak_rssi = rssi;
            self.peak_slot = slot;
        }
        if hit {
            let i = slot as usize;
            let h = self.hits[i];
            self.hits[i] = h.saturating_add(1);
        }
        if packet {
            self.total_packets = self.total_packets.saturating_add(1);
        }
        if packet {
            Some(PACKET_TONE_MS)
        } else if hit {
            Some(ACTIVE_TONE_MS)
        } else {
            None
        }
    }

    /// Closes a sweep: a completed one counts and leaves the scanner
    /// running; a stopped one clears `scanning`.
    pub fn finish(&mut self, stopped: bool)
        ensures
            final(self).scanning == !stopped,
            final(self).sweeps == (if stopped { old(self).sweeps } else { sat_inc16(old(self).sweeps) }),
            final(self).current_slot == old(self).current_slot,
            final(self).total_packets == old(self).total_packets,
            final(self).peak_slot == old(self).peak_slot,
            final(self).peak_rssi == old(self).peak_rssi,
            final(self).hits@ == old(self).hits@,
    {
        self.scanning = !stopped;
        if !stopped {
            self.sweeps = self.sweeps.saturating_add(1);
        }
    }
}

/// The slot order of one sweep: 0..=51, then 61..=63, then 52..=103.
pub open spec fn sweep_slot(i: int) -> int {
    if i < 52 {
        i
    } else if i < 55 {
        i + 9
    } else {
        i - 3
    }
}

/// The slots of one sweep, in visiting order.
pub fn sweep_slots() -> (v: Vec<u8>)
    ensures
        v@.len() == SWEEP_LEN,
        forall|i: int| 0 <= i < SWEEP_LEN ==> v@[i] == sweep_slot(i),
{
    let mut v: Vec<u8> = Vec::new();
    let mut s: u8 = 0;
    while s <= 51
        invariant
            s <= 52,
            v@.len() == s,
            forall|i: int| 0 <= i < v@.len() ==> v@[i] == sweep_slot(i),
        decreases 52 - s,
    {
        v.push(s);
        s = s + 1;
    }
    let mut s: u8 = 61;
    while s <= 63
        invariant
            61 <= s <= 64,
            v@.len() == s - 9,
            forall|i: int| 0 <= i < v@.len() ==> v@[i] == sweep_slot(i),
        decreases 64 - s,
    {
        v.push(s);
        s = s + 1;
    }
    let mut s: u8 = 52;
    while s <= 103
        invariant
            52 <= s <= 104,
            v@.len() == s + 3,
            forall|i: int| 0 <= i < v@.len() ==> v@[i] == sweep_slot(i),
        decreases 104 - s,
    {
        v.push(s);
        s = s + 1;
    }
    v
}

/// Slot `s` has a position in the sweep order.
pub open spec fn swept(s: int) -> bool {
    exists|i: int| 0 <= i < SWEEP_LEN && #[trigger] sweep_slot(i) == s
}

/// One sweep probes every US915 slot, and only those: each slot below
/// [`SCAN_SLOTS`] has a position in the order, and every position holds one.
pub proof fn law_sweep_covers_every_slot()
    ensures
        forall|i: int| 0 <= i < SWEEP_LEN ==> 0 <= #[trigger] sweep_slot(i) < SCAN_SLOTS,
        forall|s: int| 0 <= s < SCAN_SLOTS ==> #[trigger] swept(s),
        sweep_slot(52) == 61 && sweep_slot(53) == 62 && sweep_slot(54) == 63,
{
    assert forall|s: int| 0 <= s < SCAN_SLOTS implies #[trigger] swept(s) by {
        if s < 52 {
            assert(sweep_slot(s) == s);
        } else {
            assert(sweep_slot(s + 3) == s);
        }
    }
}

/// Dwell (ms) on a slot: 25 on the expected neighbourhood (61..=63 and 19),
/// 10 elsewhere.
pub fn dwell_ms(slot: u8) -> (ms: u64)
    ensures
        ms == (if (61 <= slot <= 63) || slot == 19 { 25u64 } else { 10u64 }),
{
    if (61 <= slot && slot <= 63) || slot == 19 {
        25
    } else {
        10
    }
}

/// Registers that the radio task writes and the UI reads: a state code
/// (0 unpopulated, 1 idle, 2 transmitted, 3 received, 4 quiet, 5 listening)
/// with the values of the last outcome, the sniffer slot, and the sweep.
pub struct LoraShared {
    /// Which outcome the values below describe.
    pub state_code: u8,
    /// `init_status` ran.
    pub initialized: bool,
    /// `GetStatus` byte from the probe.
    pub raw_status: u8,
    /// Frequency of the last outcome (kHz).
    pub freq_khz: u32,
    /// Ping output power (dBm).
    pub tx_pwr: i8,
    /// Ping time on air (ms).
    pub time_ms: u32,
    /// Ping `TX_DONE`.
    pub tx_ok: bool,
    /// Packet RSSI, or the noise floor of a quiet window (dBm).
    pub rssi: i16,
    /// Packet SNR (dB).
    pub snr: i8,
    /// Packet length.
    pub len: u8,
    /// First payload bytes.
    pub preview: [u8; 4],
    /// 0: listen on the primary sniffer frequency next, else the secondary.
    pub sniffer_slot: u8,
    /// Sweep results.
    pub scan: LoraScanData,
    /// The UI asked the sweep to stop.
    pub stop_requested: bool,
}

/// The card state that the registers `m` read back as.
pub open spec fn spec_card_state(m: LoraShared) -> LoraCardState {
    if !m.initialized {
        LoraCardState::Unpopulated
    } else if m.state_code == 1 {
        LoraCardState::Idle {
            raw_status: m.raw_status,
            mode: spec_radio_status(m.raw_status).chip_mode,
            cmd: spec_radio_status(m.raw_status).command_status,
        }
    } else if m.state_code == 2 {
        LoraCardState::Transmitted {
            freq_khz: m.freq_khz,
            pwr_dbm: m.tx_pwr,
            time_ms: m.time_ms,
            ok: m.tx_ok,
        }
    } else if m.state_code == 3 {
        LoraCardState::Received {
            freq_khz: m.freq_khz,
            rssi: m.rssi,
            snr: m.snr,
            len: m.len,
            preview: m.preview,
        }
    } else if m.state_code == 4 {
        LoraCardState::ListenQuiet { freq_khz: m.freq_khz, ambient_rssi: m.rssi }
    } else if m.state_code == 5 {
        LoraCardState::Listening { freq_khz: m.freq_khz }
    } else {
        LoraCardState::Unpopulated
    }
}

/// The listen frequency for sniffer slot `slot`.
pub open spec fn sniffer_freq(slot: u8) -> u32 {
    if slot == 0 { FREQ_RX_SNIFFER_PRI_HZ } else { FREQ_RX_SNIFFER_SEC_HZ }
}

/// Consecutive listen windows alternate between the two sniffer
/// frequencies: flipping the slot changes the frequency and a second flip
/// restores it.
pub proof fn law_sniffer_alternates(slot: u8)
    requires
        slot <= 1,
    ensures
        slot ^ 1 <= 1,
        (slot ^ 1) ^ 1 == slot,
        sniffer_freq(slot) != sniffer_freq(slot ^ 1),
{
    assert(slot <= 1 ==> (slot ^ 1 <= 1 && (slot ^ 1) ^ 1 == slot && (slot == 0) != (slot ^ 1 == 0)))
        by (bit_vector);
}

impl LoraShared {
    /// Boot registers: not initialised, 915 MHz, +14 dBm, primary sniffer.
    pub fn new() -> (m: LoraShared)
        ensures
            !m.initialized,
            m.state_code == 0,
            m.freq_khz == 915_000,
            m.tx_pwr == 14,
            m.sniffer_slot == 0,
            !m.stop_requested,
            m.raw_status == 0,
            m.time_ms == 0,
            !m.tx_ok,
            m.rssi == 0,
            m.snr == 0,
            m.len == 0,
            m.preview@ == seq![0u8, 0u8, 0u8, 0u8],
            !m.scan.scanning,
            m.scan.sweeps == 0,
            m.scan.current_slot == 0,
            m.scan.total_packets == 0,
            m.scan.peak_slot == 0,
            m.scan.peak_rssi == -128,
            forall|i: int| 0 <= i < SCAN_SLOTS ==> m.scan.hits@[i] == 0,
            spec_card_state(m) == LoraCardState::Unpopulated,
    {
        LoraShared {
            state_code: 0,
            initialized: false,
            raw_status: 0,
            freq_khz: 915_000,
            tx_pwr: 14,
            time_ms: 0,
            tx_ok: false,
            rssi: 0,
            snr: 0,
            len: 0,
            preview: [0u8; 4],
            sniffer_slot: 0,
            scan: LoraScanData::default(),
            stop_requested: false,
        }
    }

    /// Records whether the radio answered its probe.
    pub fn init_status(&mut self, available: bool)
        ensures
            final(self).initialized,
            final(self).state_code == (if available { 1u8 } else { 0u8 }),
            final(self).raw_status == old(self).raw_status,
            spec_card_state(*final(self)) == (if available {
                LoraCardState::Idle {
                    raw_status: old(self).raw_status,
                    mode: spec_radio_status(old(self).raw_status).chip_mode,
                    cmd: spec_radio_status(old(self).raw_status).command_status,
                }
            } else {
                LoraCardState::Unpopulated
            }),
    {
        self.state_code = if available { 1 } else { 0 };
        self.initialized = true;
    }

    /// Records the outcome of the bring-up probe: a `GetStatus` answer that
    /// reports no error keeps its raw byte and marks the radio present;
    /// none (no radio, or a failed transfer) or an error status marks it
    /// absent. Returns whether the radio is present (then the caller parks
    /// it in standby).
    pub fn record_probe(&mut self, status: Option<RadioStatus>) -> (present: bool)
        ensures
            present == (status matches Some(st) && !(st.command_status == CommandStatus::ProcessingError
                || st.command_status == CommandStatus::ExecutionFailure || st.command_status
                == CommandStatus::Timeout)),
            final(self).initialized,
            final(self).state_code == (if present { 1u8 } else { 0u8 }),
            present ==> final(self).raw_status == status->Some_0.raw,
            !present ==> final(self).raw_status == old(self).raw_status,
    {
        let present = match status {
            Some(st) => {
                if st.is_ok() {
                    self.raw_status = st.raw;
                    true
                } else {
                    false
                }
            },
            None => false,
        };
        self.init_status(present);
        present
    }

    /// What the card shows now.
    pub fn card_state(&self) -> (s: LoraCardState)
        ensures
            s == spec_card_state(*self),
    {
        if !self.initialized {
            return LoraCardState::Unpopulated;
        }
        match self.state_code {
            1 => {
                let status = RadioStatus::from_byte(self.raw_status);
                LoraCardState::Idle {
                    raw_status: self.raw_status,
                    mode: status.chip_mode,
                    cmd: status.command_status,
                }
            },
            2 => LoraCardState::Transmitted {
                freq_khz: self.freq_khz,
                pwr_dbm: self.tx_pwr,
                time_ms: self.time_ms,
                ok: self.tx_ok,
            },
            3 => LoraCardState::Received {
                freq_khz: self.freq_khz,
                rssi: self.rssi,
                snr: self.snr,
                len: self.len,
                preview: self.preview,
            },
            4 => LoraCardState::ListenQuiet { freq_khz: self.freq_khz, ambient_rssi: self.rssi },
            5 => LoraCardState::Listening { freq_khz: self.freq_khz },
            _ => LoraCardState::Unpopulated,
        }
    }

    /// The frequency the next listen window will use.
    pub fn current_sniffer_freq_hz(&self) -> (f: u32)
        ensures
            f == sniffer_freq(self.sniffer_slot),
    {
        if self.sniffer_slot == 0 {
            FREQ_RX_SNIFFER_PRI_HZ
        } else {
            FREQ_RX_SNIFFER_SEC_HZ
        }
    }

    /// Takes the sniffer frequency for a listen window and flips the slot,
    /// so consecutive windows alternate between the two frequencies.
    pub fn next_sniffer_freq_hz(&mut self) -> (f: u32)
        ensures
            f == sniffer_freq(old(self).sniffer_slot),
            final(self).sniffer_slot == old(self).sniffer_slot ^ 1,
            final(self).state_code == old(self).state_code,
            final(self).initialized == old(self).initialized,
    {
        let f = self.current_sniffer_freq_hz();
        self.sniffer_slot = self.sniffer_slot ^ 1;
        f
    }

    /// A listen window opened on `freq_khz`.
    pub fn set_listening_state(&mut self, freq_khz: u32)
        ensures
            final(self).freq_khz == freq_khz,
            final(self).state_code == 5,
            final(self).initialized == old(self).initialized,
            old(self).initialized ==> spec_card_state(*final(self)) == (LoraCardState::Listening {
                freq_khz,
            }),
    {
        self.freq_khz = freq_khz;
        self.state_code = 5;
    }

    /// A ping went out.
    pub fn store_tx(&mut self, freq_khz: u32, pwr_dbm: i8, time_ms: u32, ok: bool)
        ensures
            final(self).state_code == 2,
            final(self).initialized == old(self).initialized,
            old(self).initialized ==> spec_card_state(*final(self)) == (LoraCardState::Transmitted {
                freq_khz,
                pwr_dbm,
                time_ms,
                ok,
            }),
    {
        self.freq_khz = freq_khz;
        self.tx_pwr = pwr_dbm;
        self.time_ms = time_ms;
        self.tx_ok = ok;
        self.state_code = 2;
    }

    /// A packet arrived in the listen window.
    pub fn store_rx(&mut self, freq_khz: u32, rssi: i16, snr: i8, len: u8, preview: [u8; 4])
        ensures
            final(self).state_code == 3,
            final(self).initialized == old(self).initialized,
            old(self).initialized ==> spec_card_state(*final(self)) == (LoraCardState::Received {
                freq_khz,
                rssi,
                snr,
                len,
                preview,
            }),
    {
        self.freq_khz = freq_khz;
        self.rssi = rssi;
        self.snr = snr;
        self.len = len;
        self.preview = preview;
        self.state_code = 3;
    }

    /// The listen window closed quiet at noise floor `ambient_rssi`.
    pub fn store_quiet(&mut self, freq_khz: u32, ambient_rssi: i16)
        ensures
            final(self).state_code == 4,
            final(self).initialized == old(self).initialized,
            old(self).initialized ==> spec_card_state(*final(self)) == (LoraCardState::ListenQuiet {
                freq_khz,
                ambient_rssi,
            }),
    {
        self.freq_khz = freq_khz;
        self.rssi = ambient_rssi;
        self.state_code = 4;
    }

    /// A copy of the sweep results.
    pub fn lora_scan_data(&self) -> (d: LoraScanData)
        ensures
            d == self.scan,
    {
        self.scan
    }

    /// Asks a running sweep to stop at the next slot.
    pub fn request_scan_stop(&mut self)
        ensures
            final(self).stop_requested,
            final(self).scan == old(self).scan,
            final(self).state_code == old(self).state_code,
    {
        self.stop_requested = true;
    }

    /// Sets the sweep's running flag; its results stay.
    pub fn set_scanning(&mut self, scanning: bool)
        ensures
            final(self).scan.scanning == scanning,
            final(self).scan.sweeps == old(self).scan.sweeps,
            final(self).scan.total_packets == old(self).scan.total_packets,
            final(self).scan.peak_rssi == old(self).scan.peak_rssi,
            final(self).scan.peak_slot == old(self).scan.peak_slot,
            final(self).scan.current_slot == old(self).scan.current_slot,
            final(self).scan.hits@ == old(self).scan.hits@,
            final(self).stop_requested == old(self).stop_requested,
    {
        self.scan.scanning = scanning;
    }

    /// Starts a sweep: clears a pending stop request and marks it running.
    pub fn begin_sweep(&mut self)
        ensures
            !final(self).stop_requested,
            final(self).scan.scanning,
            final(self).scan.sweeps == old(self).scan.sweeps,
            final(self).scan.hits@ == old(self).scan.hits@,
    {
        self.stop_requested = false;
        self.set_scanning(true);
    }
}

} // verus!
