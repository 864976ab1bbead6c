//! ESP32-S3 GPIO numbers assigned on **both** SKUs. GPIO5/6/21/38–41 are
//! the full SKU's NFC/LoRa nets and are not here.

use vstd::prelude::*;

verus! {

/// M5PM1 `BOOT_OUT`. Strapping.
pub const PMIC_BOOT_OUT: u8 = 0;
/// M5PM1 IRQ.
pub const PMIC_IRQ: u8 = 1;
/// USER_KEY1 (Button A).
pub const KEY1: u8 = 2;
/// USER_KEY2 (Button B). Strapping.
pub const KEY2: u8 = 3;
/// FT6336G INT.
pub const TOUCH_INT: u8 = 4;
/// M5IOE1 IRQ.
pub const IOE1_IRQ: u8 = 7;
/// SDMMC DAT3.
pub const SDMMC_DAT3: u8 = 8;
/// SDMMC DAT2.
pub const SDMMC_DAT2: u8 = 9;
/// SDMMC DAT1.
pub const SDMMC_DAT1: u8 = 10;
/// SDMMC DAT0.
pub const SDMMC_DAT0: u8 = 11;
/// SDMMC CMD.
pub const SDMMC_CMD: u8 = 12;
/// SDMMC CLK.
pub const SDMMC_CLK: u8 = 13;
/// EPD MOSI (SPI2).
pub const EPD_MOSI: u8 = 14;
/// EPD SCLK (SPI2).
pub const EPD_SCLK: u8 = 15;
/// EPD chip select.
pub const EPD_CS: u8 = 16;
/// EPD data/command.
pub const EPD_DC: u8 = 17;
/// EPD BUSY (high = busy).
pub const EPD_BUSY: u8 = 18;
/// Native USB D−.
pub const USB_DM: u8 = 19;
/// Native USB D+.
pub const USB_DP: u8 = 20;
/// Buzzer PWM (`BB_PWM`).
pub const BUZZER: u8 = 42;
/// UART0 TX.
pub const UART0_TX: u8 = 43;
/// UART0 RX.
pub const UART0_RX: u8 = 44;
/// PDM CLK. Strapping.
pub const PDM_CLK: u8 = 45;
/// PDM DAT. Strapping.
pub const PDM_DAT: u8 = 46;
/// System I2C SDA.
pub const SYS_I2C_SDA: u8 = 47;
/// System I2C SCL.
pub const SYS_I2C_SCL: u8 = 48;

/// GPIOs the shared map assigns. Radio pads are omitted on purpose.
pub const ASSIGNED: [u8; 26] = [
    PMIC_BOOT_OUT,
    PMIC_IRQ,
    KEY1,
    KEY2,
    TOUCH_INT,
    IOE1_IRQ,
    SDMMC_DAT3,
    SDMMC_DAT2,
    SDMMC_DAT1,
    SDMMC_DAT0,
    SDMMC_CMD,
    SDMMC_CLK,
    EPD_MOSI,
    EPD_SCLK,
    EPD_CS,
    EPD_DC,
    EPD_BUSY,
    USB_DM,
    USB_DP,
    BUZZER,
    UART0_TX,
    UART0_RX,
    PDM_CLK,
    PDM_DAT,
    SYS_I2C_SDA,
    SYS_I2C_SCL,
];

} // verus!
