//! Bluetooth pairing status and the Wi-Fi count as the radio task hands
//! them to the UI and telemetry: packed into a state code, a payload word
//! and a revision counter that moves on every change.

use vstd::prelude::*;

verus! {

/// Why a pairing attempt failed.
#[derive(Clone, Copy, Debug, PartialEq, Eq, Structural)]
pub enum BleFailReason {
    /// The passkey was refused or cancelled on the phone.
    PasskeyEntryFailed,
    /// The confirm value or DH key check did not match.
    ConfirmValueFailed,
    /// The peer went away or the pairing timed out.
    Timeout,
    /// The authentication requirements could not be met.
    AuthenticationRequirements,
    /// Refused after repeated attempts.
    RepeatedAttempts,
    /// Any other rejection.
    Other,
}

/// The text shown for a failure reason.
pub open spec fn fail_text(r: BleFailReason) -> &'static str {
    match r {
        BleFailReason::PasskeyEntryFailed => "Passkey entry failed / canceled",
        BleFailReason::ConfirmValueFailed => "Confirm value mismatch",
        BleFailReason::Timeout => "Pairing timed out / disconnected",
        BleFailReason::AuthenticationRequirements => "Auth requirements not met",
        BleFailReason::RepeatedAttempts => "Too many attempts (rate limit)",
        BleFailReason::Other => "Pairing rejected by device",
    }
}

impl BleFailReason {
    /// The text shown on the card and in telemetry.
    pub fn as_str(self) -> (s: &'static str)
        ensures
            s == fail_text(self),
    {
        match self {
            BleFailReason::PasskeyEntryFailed => "Passkey entry failed / canceled",
            BleFailReason::ConfirmValueFailed => "Confirm value mismatch",
            BleFailReason::Timeout => "Pairing timed out / disconnected",
            BleFailReason::AuthenticationRequirements => "Auth requirements not met",
            BleFailReason::RepeatedAttempts => "Too many attempts (rate limit)",
            BleFailReason::Other => "Pairing rejected by device",
        }
    }
}

/// Where Bluetooth pairing stands.
#[derive(Clone, Copy, Debug, PartialEq, Eq, Structural)]
pub enum BlePairStatus {
    /// Advertising, waiting for a phone.
    Advertising,
    /// A phone connected; pairing not started.
    Connected,
    /// Pairing; the passkey to type on the phone.
    Pairing(u32),
    /// Paired and encrypted.
    Success,
    /// Pairing failed.
    Failed(BleFailReason),
    /// Radio left out of this build.
    Disabled,
}

/// The payload code of a failure reason.
pub open spec fn fail_code(r: BleFailReason) -> u32 {
    match r {
        BleFailReason::PasskeyEntryFailed => 0,
        BleFailReason::ConfirmValueFailed => 1,
        BleFailReason::Timeout => 2,
        BleFailReason::AuthenticationRequirements => 3,
        BleFailReason::RepeatedAttempts => 4,
        BleFailReason::Other => 5,
    }
}

/// The failure reason a payload code reads back as.
pub open spec fn fail_of(code: u32) -> BleFailReason {
    if code == 0 {
        BleFailReason::PasskeyEntryFailed
    } else if code == 1 {
        BleFailReason::ConfirmValueFailed
    } else if code == 2 {
        BleFailReason::Timeout
    } else if code == 3 {
        BleFailReason::AuthenticationRequirements
    } else if code == 4 {
        BleFailReason::RepeatedAttempts
    } else {
        BleFailReason::Other
    }
}

/// The status the registers (`status`, `pin`) read back as.
pub open spec fn status_of(status: u8, pin: u32) -> BlePairStatus {
    if status == 1 {
        BlePairStatus::Connected
    } else if status == 2 {
        BlePairStatus::Pairing(pin)
    } else if status == 3 {
        BlePairStatus::Success
    } else if status == 4 {
        BlePairStatus::Failed(fail_of(pin))
    } else if status == 5 {
        BlePairStatus::Disabled
    } else {
        BlePairStatus::Advertising
    }
}

/// The state code a status is stored as.
pub open spec fn status_code(s: BlePairStatus) -> u8 {
    match s {
        BlePairStatus::Advertising => 0,
        BlePairStatus::Connected => 1,
        BlePairStatus::Pairing(_) => 2,
        BlePairStatus::Success => 3,
        BlePairStatus::Failed(_) => 4,
        BlePairStatus::Disabled => 5,
    }
}

/// Registers of the radio task.
pub struct RadioShared {
    /// State code (0 advertising .. 5 disabled).
    pub status: u8,
    /// Passkey while pairing, failure code after a failure.
    pub pin: u32,
    /// Bumped (wrapping) on every status change.
    pub rev: u32,
    /// Access points seen by the last Wi-Fi scan.
    pub wifi_n: u16,
    /// A Wi-Fi scan finished.
    pub have_wifi: bool,
}

impl RadioShared {
    /// Boot registers: advertising, revision 0, no scan.
    pub fn new() -> (m: RadioShared)
        ensures
            m.status == 0 && m.pin == 0 && m.rev == 0 && m.wifi_n == 0 && !m.have_wifi,
    {
        RadioShared { status: 0, pin: 0, rev: 0, wifi_n: 0, have_wifi: false }
    }

    /// Stores a new status and moves the revision on. The payload word is
    /// only written for a passkey or a failure; otherwise it keeps its value.
    pub fn set_pair_status(&mut self, status: BlePairStatus)
        ensures
            final(self).status == status_code(status),
            final(self).pin == (match status {
                BlePairStatus::Pairing(p) => p,
                BlePairStatus::Failed(r) => fail_code(r),
                _ => old(self).pin,
            }),
            final(self).rev == (if old(self).rev == u32::MAX { 0 } else { (old(self).rev + 1) as u32 }),
            final(self).wifi_n == old(self).wifi_n,
            final(self).have_wifi == old(self).have_wifi,
    {
        match status {
            BlePairStatus::Advertising => {
                self.status = 0;
            },
            BlePairStatus::Connected => {
                self.status = 1;
            },
            BlePairStatus::Pairing(pin) => {
                self.pin = pin;
                self.status = 2;
            },
            BlePairStatus::Success => {
                self.status = 3;
            },
            BlePairStatus::Failed(reason) => {
                let code: u32 = match reason {
                    BleFailReason::PasskeyEntryFailed => 0,
                    BleFailReason::ConfirmValueFailed => 1,
                    BleFailReason::Timeout => 2,
                    BleFailReason::AuthenticationRequirements => 3,
                    BleFailReason::RepeatedAttempts => 4,
                    BleFailReason::Other => 5,
                };
                self.pin = code;
                self.status = 4;
            },
            BlePairStatus::Disabled => {
                self.status = 5;
            },
        }
        self.rev = self.rev.wrapping_add(1);
    }

    /// The current pairing status.
    pub fn pair_status(&self) -> (s: BlePairStatus)
        ensures
            s == status_of(self.status, self.pin),
    {
        match self.status {
            1 => BlePairStatus::Connected,
            2 => BlePairStatus::Pairing(self.pin),
            3 => BlePairStatus::Success,
            4 => BlePairStatus::Failed(
                match self.pin {
                    0 => BleFailReason::PasskeyEntryFailed,
                    1 => BleFailReason::ConfirmValueFailed,
                    2 => BleFailReason::Timeout,
                    3 => BleFailReason::AuthenticationRequirements,
                    4 => BleFailReason::RepeatedAttempts,
                    _ => BleFailReason::Other,
                },
            ),
            5 => BlePairStatus::Disabled,
            _ => BlePairStatus::Advertising,
        }
    }

    /// The revision counter, for spotting a change.
    pub fn state_rev(&self) -> (r: u32)
        ensures
            r == self.rev,
    {
        self.rev
    }

    /// Records the access-point count of a finished Wi-Fi scan.
    pub fn store_wifi(&mut self, n: u16)
        ensures
            final(self).wifi_n == n && final(self).have_wifi,
            final(self).status == old(self).status,
            final(self).pin == old(self).pin,
            final(self).rev == old(self).rev,
    {
        self.wifi_n = n;
        self.have_wifi = true;
    }

    /// The last Wi-Fi count, or `None` before the first scan.
    pub fn last_wifi(&self) -> (r: Option<u16>)
        ensures
            r == (if self.have_wifi { Some(self.wifi_n) } else { None }),
    {
        if self.have_wifi {
            Some(self.wifi_n)
        } else {
            None
        }
    }

    /// BLE advertisement counts are not kept: the radio pairs instead of
    /// listening.
    pub fn last_ble(&self) -> (r: Option<u16>)
        ensures
            r is None,
    {
        None
    }
}

/// Every status reads back as stored.
pub proof fn law_pair_status_read_back(s: BlePairStatus, old_pin: u32)
    ensures
        status_of(
            status_code(s),
            match s {
                BlePairStatus::Pairing(p) => p,
                BlePairStatus::Failed(r) => fail_code(r),
                _ => old_pin,
            },
        ) == s,
{
}

} // verus!
