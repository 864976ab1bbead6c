use papermono::bus::{I2cBus, I2cDevice};
use papermono::firmware::sleep_wake::{
    arm_timer_10s, clean_gpio_wake, preconfig_g0, rtc_irq, stop_timer, timer_extension, vin_present,
};
use papermono::firmware::touch_bus::{charge_sample, read_adc_mv};
use papermono::lite::imu;
use papermono::lite::rtc;
use papermono::m5ioe1::{
    apply_bit, input_level, pin_bit, Bank, M5ioe1, BOARD_ADDRESS, GPIO_DRV_H, GPIO_DRV_L, GPIO_I_H,
    GPIO_I_L, GPIO_M_H, GPIO_M_L, GPIO_O_H, GPIO_O_L, IP2315_I2C_GATE,
};
use papermono::m5pm1::{
    adc_mv, battery_percent, pwm0_bytes, pwm_freq_bytes, M5pm1, DEFAULT_ADDRESS, DEVICE_ID,
    FRONTLIGHT_DUTY, FRONTLIGHT_PWM_HZ, GPIO_DRV, GPIO_FUNC0, PWM0_DUTY_MAX, PWM0_EN, PWM0_L,
    PWM_FREQ_L, PWR_CFG, SYS_CMD, SYS_CMD_SHUTDOWN, VBAT_L,
};

#[derive(Debug, Clone, PartialEq)]
enum Txn {
    Write(u8, Vec<u8>),
    Read(u8, Vec<u8>),
    WriteRead(u8, Vec<u8>, Vec<u8>),
    Fail,
}

/// Scripted I2C bus: each transfer must match the next expected one.
struct Mock {
    txns: Vec<Txn>,
    at: usize,
}

impl Mock {
    fn new(txns: &[Txn]) -> Self {
        Mock { txns: txns.to_vec(), at: 0 }
    }

    fn next(&mut self) -> Txn {
        assert!(self.at < self.txns.len(), "unexpected transfer");
        let t = self.txns[self.at].clone();
        self.at += 1;
        t
    }

    fn done(&self) {
        assert_eq!(self.at, self.txns.len(), "expected transfers did not run");
    }
}

impl I2cBus for Mock {
    type Error = ();

    fn write(&mut self, address: u8, bytes: &[u8]) -> Result<(), ()> {
        match self.next() {
            Txn::Fail => Err(()),
            t => {
                assert_eq!(t, Txn::Write(address, bytes.to_vec()));
                Ok(())
            }
        }
    }

    fn read(&mut self, address: u8, buffer: &mut [u8]) -> Result<(), ()> {
        match self.next() {
            Txn::Read(a, data) => {
                assert_eq!(a, address);
                buffer.copy_from_slice(&data);
                Ok(())
            }
            Txn::Fail => Err(()),
            t => panic!("expected {t:?}, got a read"),
        }
    }

    fn write_read(&mut self, address: u8, bytes: &[u8], buffer: &mut [u8]) -> Result<(), ()> {
        match self.next() {
            Txn::WriteRead(a, w, r) => {
                assert_eq!((a, w), (address, bytes.to_vec()));
                buffer.copy_from_slice(&r);
                Ok(())
            }
            Txn::Fail => Err(()),
            t => panic!("expected {t:?}, got a write-read"),
        }
    }
}

fn read_txn(addr: u8, reg: u8, val: u8) -> [Txn; 2] {
    [Txn::Write(addr, vec![reg]), Txn::Read(addr, vec![val])]
}

#[test]
fn pyg11_is_high_bank_bit_2() {
    assert_eq!(pin_bit(IP2315_I2C_GATE), Some((Bank::High, 2)));
    assert_eq!(input_level(0x01, 0, 1), Some(true));
    let mut low = 0u8;
    let mut high = 0u8;
    apply_bit(&mut low, &mut high, IP2315_I2C_GATE, true);
    assert_eq!(high, 1 << 2);
}

#[test]
fn pin_numbers_outside_the_expander_are_ignored() {
    assert_eq!(pin_bit(0), None);
    assert_eq!(pin_bit(15), None);
    assert_eq!(pin_bit(9), Some((Bank::High, 0)));
    assert_eq!(pin_bit(8), Some((Bank::Low, 7)));
    assert_eq!(input_level(0xFF, 0xFF, 0), None);
    let (mut low, mut high) = (0x5Au8, 0xA5u8);
    apply_bit(&mut low, &mut high, 15, true);
    assert_eq!((low, high), (0x5A, 0xA5));
    apply_bit(&mut low, &mut high, 2, false);
    assert_eq!((low, high), (0x58, 0xA5));
    assert_eq!(input_level(low, high, 2), Some(false));
}

/// Traffic of one push-pull update of PYG11: six register reads (values
/// `r` in M_L, M_H, O_L, O_H, DRV_L, DRV_H order), then six writes.
fn gate_txns(r: [u8; 6], high: bool) -> Vec<Txn> {
    let regs = [GPIO_M_L, GPIO_M_H, GPIO_O_L, GPIO_O_H, GPIO_DRV_L, GPIO_DRV_H];
    let mut txns = vec![];
    for (reg, val) in regs.iter().zip(r.iter()) {
        txns.extend(read_txn(BOARD_ADDRESS, *reg, *val));
    }
    let [m_l, m_h, o_l, o_h, d_l, d_h] = r;
    let o_h = if high { o_h | 1 << 2 } else { o_h & !(1u8 << 2) };
    txns.push(Txn::Write(BOARD_ADDRESS, vec![GPIO_DRV_L, d_l]));
    txns.push(Txn::Write(BOARD_ADDRESS, vec![GPIO_DRV_H, d_h & !(1u8 << 2)]));
    txns.push(Txn::Write(BOARD_ADDRESS, vec![GPIO_O_L, o_l]));
    txns.push(Txn::Write(BOARD_ADDRESS, vec![GPIO_O_H, o_h]));
    txns.push(Txn::Write(BOARD_ADDRESS, vec![GPIO_M_L, m_l]));
    txns.push(Txn::Write(BOARD_ADDRESS, vec![GPIO_M_H, m_h | 1 << 2]));
    txns
}

fn park_txns(m_h: u8) -> Vec<Txn> {
    gate_txns([0, m_h, 0, 0, 0xFF, 0xFF], false)
}

#[test]
fn new_parks_pyg11() {
    let txns = park_txns(0);
    let ioe = M5ioe1::new(Mock::new(&txns), BOARD_ADDRESS).unwrap();
    ioe.release().done();
}

#[test]
fn new_reports_a_bus_error() {
    let ioe = M5ioe1::new(Mock::new(&[Txn::Fail]), BOARD_ADDRESS);
    assert!(ioe.is_err());
}

#[test]
fn push_pull_output_drives_pyg3_high() {
    let mut txns = park_txns(0);
    for &(reg, val) in &[
        (GPIO_M_L, 0u8),
        (GPIO_M_H, 0),
        (GPIO_O_L, 0),
        (GPIO_O_H, 0),
        (GPIO_DRV_L, 0xFF),
        (GPIO_DRV_H, 0xFF),
    ] {
        txns.extend(read_txn(BOARD_ADDRESS, reg, val));
    }
    txns.push(Txn::Write(BOARD_ADDRESS, vec![GPIO_DRV_L, !(1u8 << 2)]));
    txns.push(Txn::Write(BOARD_ADDRESS, vec![GPIO_DRV_H, 0xFF]));
    txns.push(Txn::Write(BOARD_ADDRESS, vec![GPIO_O_L, 1 << 2]));
    txns.push(Txn::Write(BOARD_ADDRESS, vec![GPIO_O_H, 0]));
    txns.push(Txn::Write(BOARD_ADDRESS, vec![GPIO_M_L, 1 << 2]));
    txns.push(Txn::Write(BOARD_ADDRESS, vec![GPIO_M_H, 0]));
    let mut ioe = M5ioe1::new(Mock::new(&txns), BOARD_ADDRESS).unwrap();
    ioe.set_push_pull_output(3, true).unwrap();
    ioe.release().done();
}

#[test]
fn input_mode_and_level() {
    let mut txns = park_txns(0);
    txns.extend(read_txn(BOARD_ADDRESS, GPIO_M_L, 0xFF));
    txns.extend(read_txn(BOARD_ADDRESS, GPIO_M_H, 0xFF));
    txns.push(Txn::Write(BOARD_ADDRESS, vec![GPIO_M_L, !(1u8 << 0)]));
    txns.push(Txn::Write(BOARD_ADDRESS, vec![GPIO_M_H, 0xFF]));
    txns.extend(read_txn(BOARD_ADDRESS, GPIO_I_L, 0x01));
    txns.extend(read_txn(BOARD_ADDRESS, GPIO_I_H, 0x00));
    let mut ioe = M5ioe1::new(Mock::new(&txns), BOARD_ADDRESS).unwrap();
    ioe.set_input(1).unwrap();
    assert!(ioe.read_input(1).unwrap());
    ioe.release().done();
}

#[test]
fn mount_then_park_toggles_the_gate() {
    let mut txns = park_txns(0);
    txns.extend(gate_txns([0, 1 << 2, 0, 0, 0xFF, !(1u8 << 2)], true));
    txns.extend(gate_txns([0, 1 << 2, 0, 1 << 2, 0xFF, !(1u8 << 2)], false));
    let ioe = M5ioe1::new(Mock::new(&txns), BOARD_ADDRESS).unwrap();
    let mounted = ioe.mount().unwrap();
    let parked = mounted.park().unwrap();
    parked.release().done();
}

#[test]
fn registers_and_packing() {
    assert_eq!(DEVICE_ID, 0x00);
    assert_eq!(SYS_CMD_SHUTDOWN, 0xA1);
    assert_eq!(adc_mv(0x51, 0x0F), 3921);
    assert_eq!(pwm0_bytes(0), (0, 0));
    assert_eq!(pwm0_bytes(FRONTLIGHT_DUTY), (0x00, PWM0_EN | 0x04));
    assert_eq!(pwm_freq_bytes(FRONTLIGHT_PWM_HZ), (0x88, 0x13));
    assert!(PWM0_DUTY_MAX == 4095);
}

#[test]
fn pwm0_duty_is_clamped_to_twelve_bits() {
    assert_eq!(pwm0_bytes(4095), (0xFF, PWM0_EN | 0x0F));
    assert_eq!(pwm0_bytes(u16::MAX), (0xFF, PWM0_EN | 0x0F));
    assert_eq!(pwm0_bytes(1), (0x01, PWM0_EN));
}

#[test]
fn battery_percent_mapping() {
    assert_eq!(battery_percent(3200), 0);
    assert_eq!(battery_percent(3300), 0);
    assert_eq!(battery_percent(4150), 100);
    assert_eq!(battery_percent(4200), 100);
    assert_eq!(battery_percent(3725), 50);
    assert_eq!(battery_percent(3921), 73);
}

#[test]
fn battery_percent_near_the_ends() {
    assert_eq!(battery_percent(3301), 0);
    assert_eq!(battery_percent(4149), 99);
    assert_eq!(battery_percent(0), 0);
    assert_eq!(battery_percent(u16::MAX), 100);
}

#[test]
fn set_pwm0_duty_writes_pair() {
    let (lo, hc) = pwm0_bytes(FRONTLIGHT_DUTY);
    let mut pm1 = M5pm1::new(Mock::new(&[Txn::Write(DEFAULT_ADDRESS, vec![PWM0_L, lo, hc])]), DEFAULT_ADDRESS);
    pm1.set_pwm0_duty(FRONTLIGHT_DUTY).unwrap();
    pm1.release().done();
}

#[test]
fn read_operations() {
    let txns = [
        Txn::Write(DEFAULT_ADDRESS, vec![DEVICE_ID]),
        Txn::Read(DEFAULT_ADDRESS, vec![0x42]),
        Txn::WriteRead(DEFAULT_ADDRESS, vec![VBAT_L], vec![0x51, 0x0F]),
    ];
    let mut pm1 = M5pm1::new(Mock::new(&txns), DEFAULT_ADDRESS);
    assert_eq!(pm1.read_at(DEVICE_ID).unwrap(), 0x42);
    assert_eq!(pm1.read_le16(VBAT_L).unwrap(), 3921);
    pm1.release().done();
}

#[test]
fn set_led_toggles_pwr_cfg_bit_4() {
    let txns = [
        Txn::Write(DEFAULT_ADDRESS, vec![PWR_CFG]),
        Txn::Read(DEFAULT_ADDRESS, vec![0x17]),
        Txn::Write(DEFAULT_ADDRESS, vec![PWR_CFG, 0x07]),
        Txn::Write(DEFAULT_ADDRESS, vec![PWR_CFG]),
        Txn::Read(DEFAULT_ADDRESS, vec![0x07]),
        Txn::Write(DEFAULT_ADDRESS, vec![PWR_CFG, 0x17]),
    ];
    let mut pm1 = M5pm1::new(Mock::new(&txns), DEFAULT_ADDRESS);
    pm1.set_led(false).unwrap();
    pm1.set_led(true).unwrap();
    pm1.release().done();
}

#[test]
fn enable_pwm0_muxes_g3_and_sets_frequency() {
    let txns = [
        Txn::Write(DEFAULT_ADDRESS, vec![GPIO_FUNC0]),
        Txn::Read(DEFAULT_ADDRESS, vec![0x05]),
        Txn::Write(DEFAULT_ADDRESS, vec![GPIO_DRV]),
        Txn::Read(DEFAULT_ADDRESS, vec![0xFF]),
        Txn::Write(DEFAULT_ADDRESS, vec![GPIO_FUNC0, 0xC5]),
        Txn::Write(DEFAULT_ADDRESS, vec![GPIO_DRV, 0xF7]),
        Txn::Write(DEFAULT_ADDRESS, vec![PWM_FREQ_L, 0x88, 0x13]),
        Txn::Write(DEFAULT_ADDRESS, vec![SYS_CMD, SYS_CMD_SHUTDOWN]),
    ];
    let mut pm1 = M5pm1::new(Mock::new(&txns), DEFAULT_ADDRESS);
    pm1.enable_pwm0(3).unwrap();
    pm1.shutdown().unwrap();
    pm1.release().done();
}

#[test]
fn pmic_failed_read_writes_nothing() {
    let mut pm1 = M5pm1::new(Mock::new(&[Txn::Fail]), DEFAULT_ADDRESS);
    assert_eq!(pm1.set_led(true), Err(()));
    pm1.release().done();
}

fn imu_dev(txns: &[Txn]) -> I2cDevice<Mock> {
    I2cDevice::new(Mock::new(txns), DEFAULT_ADDRESS)
}

#[test]
fn bmi270_reset_and_power_save_writes() {
    let mut dev = imu_dev(&[
        Txn::Write(imu::ADDRESS, vec![imu::CMD, imu::CMD_SOFTRESET]),
        Txn::Write(imu::ADDRESS, vec![imu::PWR_CONF, imu::PWR_CONF_APS_OFF]),
    ]);
    imu::soft_reset(&mut dev).unwrap();
    imu::disable_adv_power_save(&mut dev).unwrap();
    dev.release().done();
}

#[test]
fn bmi270_config_is_streamed_in_word_addressed_bursts() {
    let blob: Vec<u8> = (0..20u8).collect();
    let mut data0 = vec![imu::INIT_DATA];
    data0.extend_from_slice(&blob[..16]);
    let mut data1 = vec![imu::INIT_DATA];
    data1.extend_from_slice(&blob[16..]);
    let mut dev = imu_dev(&[
        Txn::Write(imu::ADDRESS, vec![imu::INIT_CTRL, 0x00]),
        Txn::Write(imu::ADDRESS, vec![imu::INIT_ADDR_0, 0x00, 0x00]),
        Txn::Write(imu::ADDRESS, data0),
        Txn::Write(imu::ADDRESS, vec![imu::INIT_ADDR_0, 0x08, 0x00]),
        Txn::Write(imu::ADDRESS, data1),
        Txn::Write(imu::ADDRESS, vec![imu::INIT_CTRL, 0x01]),
    ]);
    imu::load_config(&mut dev, &blob).unwrap();
    dev.release().done();
}

#[test]
fn bmi270_full_size_config_ends_at_word_0xff8() {
    let blob = vec![0xA5u8; 8192];
    let mut txns = vec![Txn::Write(imu::ADDRESS, vec![imu::INIT_CTRL, 0x00])];
    for k in 0..512usize {
        let word = (k * 8) as u16;
        txns.push(Txn::Write(imu::ADDRESS, vec![imu::INIT_ADDR_0, (word & 0x0F) as u8, (word >> 4) as u8]));
        let mut data = vec![imu::INIT_DATA];
        data.extend_from_slice(&[0xA5; 16]);
        txns.push(Txn::Write(imu::ADDRESS, data));
    }
    txns.push(Txn::Write(imu::ADDRESS, vec![imu::INIT_CTRL, 0x01]));
    assert_eq!(txns[txns.len() - 3], Txn::Write(imu::ADDRESS, vec![imu::INIT_ADDR_0, 0x08, 0xFF]));
    let mut dev = imu_dev(&txns);
    imu::load_config(&mut dev, &blob).unwrap();
    dev.release().done();
}

#[test]
fn bmi270_config_upload_stops_at_a_failed_write() {
    let mut dev = imu_dev(&[Txn::Write(imu::ADDRESS, vec![imu::INIT_CTRL, 0x00]), Txn::Fail]);
    assert_eq!(imu::load_config(&mut dev, &[1, 2, 3]), Err(()));
    dev.release().done();
}

#[test]
fn bmi270_empty_config_only_toggles_init_ctrl() {
    let mut dev = imu_dev(&[
        Txn::Write(imu::ADDRESS, vec![imu::INIT_CTRL, 0x00]),
        Txn::Write(imu::ADDRESS, vec![imu::INIT_CTRL, 0x01]),
    ]);
    imu::load_config(&mut dev, &[]).unwrap();
    dev.release().done();
}

#[test]
fn bmi270_status_sampling_and_accel() {
    let mut dev = imu_dev(&[
        Txn::WriteRead(imu::ADDRESS, vec![imu::INTERNAL_STATUS], vec![0x01]),
        Txn::Write(imu::ADDRESS, vec![imu::PWR_CONF, imu::PWR_CONF_APS_OFF]),
        Txn::Write(imu::ADDRESS, vec![imu::ACC_CONF, imu::ACC_CONF_NORMAL_100HZ]),
        Txn::Write(imu::ADDRESS, vec![imu::ACC_RANGE, imu::ACC_RANGE_2G]),
        Txn::Write(imu::ADDRESS, vec![imu::PWR_CTRL, imu::PWR_CTRL_ACC_EN]),
        Txn::WriteRead(imu::ADDRESS, vec![imu::DATA_8], vec![0x00, 0xC0, 0x00, 0x40, 0xFF, 0x7F]),
    ]);
    assert_eq!(imu::read_internal_status(&mut dev).unwrap(), 0x01);
    imu::enable_accel_sampling(&mut dev).unwrap();
    let s = imu::read_accel(&mut dev).unwrap();
    assert_eq!((s.x, s.y, s.z), (-16384, 16384, 32767));
    assert_eq!(imu::classify(s.x, s.y, s.z), Some(imu::Orientation::FaceUp));
    dev.release().done();
}

#[test]
fn battery_percent_never_drops_as_voltage_rises() {
    let mut last = battery_percent(0);
    let mut mv: u16 = 1;
    loop {
        let pct = battery_percent(mv);
        assert!(pct >= last, "dropped at {} mV", mv);
        assert!(pct <= 100);
        last = pct;
        if mv == u16::MAX {
            break;
        }
        mv += 1;
    }
}

fn rtc_stop_txns() -> Vec<Txn> {
    let a = rtc::ADDRESS;
    vec![
        Txn::WriteRead(a, vec![0x1C], vec![0x57]),
        Txn::WriteRead(a, vec![0x1E], vec![0x10]),
        Txn::Write(a, vec![0x1C, 0x47]),
        Txn::Write(a, vec![0x1E, 0x00]),
        Txn::Write(a, vec![0x1D, 0xA7]),
    ]
}

fn rtc_setup_txns() -> Vec<Txn> {
    let a = rtc::ADDRESS;
    vec![
        Txn::WriteRead(a, vec![0x1C], vec![0x47]),
        Txn::Write(a, vec![0x1C, 0x41]),
        Txn::Write(a, vec![0x1D, 0xA7]),
        Txn::WriteRead(a, vec![0x1E], vec![0x00]),
        Txn::Write(a, vec![0x1E, 0x10]),
    ]
}

#[test]
fn rtc_timer_stops() {
    let mut dev = I2cDevice::new(Mock::new(&rtc_stop_txns()), rtc::ADDRESS);
    assert!(stop_timer(&mut dev));
    dev.release().done();
    let mut dev = I2cDevice::new(
        Mock::new(&[Txn::WriteRead(rtc::ADDRESS, vec![0x1C], vec![0x57]), Txn::Fail]),
        rtc::ADDRESS,
    );
    assert!(!stop_timer(&mut dev));
    dev.release().done();
}

#[test]
fn rtc_timer_arms_for_ten_seconds() {
    let a = rtc::ADDRESS;
    let mut txns = rtc_stop_txns();
    txns.extend(rtc_setup_txns());
    txns.push(Txn::Write(a, vec![0x1A, 0x80, 0x02]));
    txns.push(Txn::WriteRead(a, vec![0x1A], vec![0x80, 0x02]));
    txns.push(Txn::Write(a, vec![0x1C, 0x51]));
    let mut dev = I2cDevice::new(Mock::new(&txns), a);
    assert!(arm_timer_10s(&mut dev));
    dev.release().done();
}

#[test]
fn rtc_counter_load_retries() {
    let a = rtc::ADDRESS;
    let mut txns = rtc_stop_txns();
    txns.extend(rtc_setup_txns());
    txns.push(Txn::Fail);
    txns.push(Txn::Write(a, vec![0x1A, 0x80, 0x02]));
    txns.push(Txn::WriteRead(a, vec![0x1A], vec![0x00, 0x00]));
    txns.push(Txn::Write(a, vec![0x1A, 0x80, 0x02]));
    txns.push(Txn::WriteRead(a, vec![0x1A], vec![0x80, 0x02]));
    txns.push(Txn::Write(a, vec![0x1C, 0x51]));
    let mut dev = I2cDevice::new(Mock::new(&txns), a);
    assert!(arm_timer_10s(&mut dev));
    dev.release().done();
    // Three misses: not armed, EXTENSION keeps the timer off.
    let mut txns = rtc_stop_txns();
    txns.extend(rtc_setup_txns());
    for _ in 0..3 {
        txns.push(Txn::Write(a, vec![0x1A, 0x80, 0x02]));
        txns.push(Txn::Fail);
    }
    let mut dev = I2cDevice::new(Mock::new(&txns), a);
    assert!(!arm_timer_10s(&mut dev));
    dev.release().done();
    // A failed set-up stops before any load.
    let mut txns = rtc_stop_txns();
    txns.push(Txn::WriteRead(a, vec![0x1C], vec![0x47]));
    txns.push(Txn::Fail);
    let mut dev = I2cDevice::new(Mock::new(&txns), a);
    assert!(!arm_timer_10s(&mut dev));
    dev.release().done();
}

#[test]
fn pmic_prepared_for_rtc_sleep() {
    let a = DEFAULT_ADDRESS;
    let rmw = |reg: u8, cur: u8, new: u8| {
        vec![Txn::Write(a, vec![reg]), Txn::Read(a, vec![cur]), Txn::Write(a, vec![reg, new])]
    };
    let mut txns = rmw(0x18, 0xFF, 0xEE);
    txns.push(Txn::Write(a, vec![0x40, 0x00]));
    txns.push(Txn::Write(a, vec![0x41, 0x00]));
    txns.push(Txn::Write(a, vec![0x42, 0x00]));
    txns.extend(rmw(0x43, 0x00, 0x1C));
    txns.extend(rmw(0x16, 0xFF, 0xFC));
    txns.extend(rmw(0x10, 0x01, 0x00));
    txns.extend(rmw(0x14, 0xFF, 0xFD));
    txns.extend(rmw(0x13, 0x01, 0x00));
    txns.extend(rmw(0x19, 0x03, 0x02));
    txns.extend(rmw(0x07, 0x61, 0x01));
    txns.push(Txn::Write(a, vec![0x05, 0x00]));
    let mut pm1 = M5pm1::new(Mock::new(&txns), a);
    assert!(preconfig_g0(&mut pm1));
    pm1.release().done();
    // The first read fails: the chain stops, WAKE_SRC is still cleared.
    let mut pm1 = M5pm1::new(Mock::new(&[Txn::Write(a, vec![0x18]), Txn::Fail, Txn::Write(a, vec![0x05, 0x00])]), a);
    assert!(!preconfig_g0(&mut pm1));
    pm1.release().done();
}

#[test]
fn sleep_decisions() {
    assert!(vin_present(Some(2400), None));
    assert!(!vin_present(Some(2399), Some(0x04)));
    assert!(vin_present(None, Some(0x02)));
    assert!(vin_present(Some(0), Some(0x01)));
    assert!(!vin_present(None, None));
    assert!(rtc_irq(Some(0x10)));
    assert!(rtc_irq(Some(0x08)));
    assert!(!rtc_irq(Some(0x07)));
    assert!(!rtc_irq(None));
    assert!(clean_gpio_wake(0x20, Some(true), false));
    assert!(!clean_gpio_wake(0x20, Some(true), true));
    assert!(!clean_gpio_wake(0x20, Some(false), false));
    assert!(!clean_gpio_wake(0x20, None, false));
    assert!(!clean_gpio_wake(0x01, Some(true), false));
    assert_eq!(timer_extension(0xFF), 0xE9);
    assert_eq!(timer_extension(0x00), 0x01);
}

#[test]
fn adc_read_falls_back_to_single_bytes() {
    let a = DEFAULT_ADDRESS;
    let mut pm1 = M5pm1::new(Mock::new(&[Txn::WriteRead(a, vec![0x22], vec![0x94, 0x0F])]), a);
    assert_eq!(read_adc_mv(&mut pm1, 0x22), Some(3988));
    pm1.release().done();
    let mut pm1 = M5pm1::new(
        Mock::new(&[
            Txn::Fail,
            Txn::Write(a, vec![0x22]),
            Txn::Read(a, vec![0x94]),
            Txn::Write(a, vec![0x23]),
            Txn::Read(a, vec![0x0F]),
        ]),
        a,
    );
    assert_eq!(read_adc_mv(&mut pm1, 0x22), Some(3988));
    pm1.release().done();
    let mut pm1 = M5pm1::new(Mock::new(&[Txn::Fail, Txn::Write(a, vec![0xFF]), Txn::Read(a, vec![1]), Txn::Write(a, vec![0x00]), Txn::Fail]), a);
    assert_eq!(read_adc_mv(&mut pm1, 0xFF), None);
    pm1.release().done();
}

#[test]
fn charge_sample_from_reads() {
    let c = charge_sample(Some(3900), None, Some(0x05), Some(0x03), true);
    assert_eq!((c.vbat, c.vin, c.src, c.chg_en, c.ip, c.then_ack), (3900, 0, 0x05, true, false, true));
    let c = charge_sample(None, Some(5000), None, None, false);
    assert_eq!((c.vbat, c.vin, c.src, c.chg_en, c.ip, c.then_ack), (0, 5000, 0, false, false, false));
}
