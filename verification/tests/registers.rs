use rp_pac::usb::regs as usb;
use rp_pac::usb_dpram::regs as dpram;
use rp_usb::buffer::{BufIdx, DoubleBufConfig, EpBufferControl};
use rp_usb::regs;
use rp_usb::regs::{Place, Reg};

const LENGTHS: [u16; 7] = [0, 1, 8, 63, 64, 1023, 1024];
const WORDS: [u32; 9] = [
    0,
    0xffff_ffff,
    0x0000_0400,
    0x0400_0000,
    0x2000_a040,
    0x1234_5678,
    0x8765_4321,
    0xa5a5_5a5a,
    0x03ff_07ff,
];

#[test]
fn control_word_is_what_the_field_setters_give() {
    for flags in 0..64u32 {
        let f = |n: u32| flags & (1 << n) != 0;
        for l0 in LENGTHS {
            for l1 in LENGTHS {
                let b0 = DoubleBufConfig { pid: f(0), length: l0, available: f(1), full: f(2) };
                let b1 = DoubleBufConfig { pid: f(3), length: l1, available: f(4), full: f(5) };
                let mut w = dpram::EpBufferControl::default();
                w.set_pid(0, b0.pid);
                w.set_length(0, b0.length);
                w.set_full(0, b0.full);
                w.set_available(0, b0.available);
                w.set_pid(1, b1.pid);
                w.set_length(1, b1.length);
                w.set_full(1, b1.full);
                w.set_available(1, b1.available);
                assert_eq!(EpBufferControl::new(b0, b1).0, w.0);
            }
        }
    }
}

#[test]
fn control_word_fields_are_where_the_controller_has_them() {
    for word in WORDS {
        let theirs = dpram::EpBufferControl(word);
        let ours = EpBufferControl(word);
        for b in [BufIdx::Buf0, BufIdx::Buf1] {
            assert_eq!(ours.pid(b), theirs.pid(b.index()));
            assert_eq!(ours.length(b), theirs.length(b.index()));
            assert_eq!(ours.available(b), theirs.available(b.index()));
            assert_eq!(ours.full(b), theirs.full(b.index()));
        }
        assert_eq!(ours.stall(), theirs.stall());
    }
}

#[test]
fn exact_control_words() {
    let b0 = DoubleBufConfig { pid: true, length: 64, available: true, full: true };
    let b1 = DoubleBufConfig { pid: false, length: 8, available: false, full: true };
    assert_eq!(EpBufferControl::new(b0, DoubleBufConfig::empty()).0, 0x0000_a440);
    assert_eq!(EpBufferControl::new(b0, b1).0, 0x8008_a440);
    let long = DoubleBufConfig { pid: false, length: 1025, available: false, full: false };
    assert_eq!(EpBufferControl::new(long, DoubleBufConfig::empty()).0, 1);
}

#[test]
fn stall_bit() {
    let mut w = dpram::EpBufferControl::default();
    w.set_stall(true);
    assert_eq!(w.0, regs::BUFFER_CONTROL_STALL);
    for word in WORDS {
        for stalled in [false, true] {
            let mut theirs = dpram::EpBufferControl(word);
            theirs.set_stall(stalled);
            let value = if stalled { regs::BUFFER_CONTROL_STALL } else { 0 };
            assert_eq!(regs::merge(word, regs::BUFFER_CONTROL_STALL, value), theirs.0);
        }
    }
}

#[test]
fn enable_bit() {
    for word in WORDS {
        assert_eq!(regs::is_set(word, regs::EP_CONTROL_ENABLE), dpram::EpControl(word).enable());
        for enabled in [false, true] {
            let mut theirs = dpram::EpControl(word);
            theirs.set_enable(enabled);
            let value = if enabled { regs::EP_CONTROL_ENABLE } else { 0 };
            assert_eq!(regs::merge(word, regs::EP_CONTROL_ENABLE, value), theirs.0);
        }
    }
}

#[test]
fn bring_up_flags() {
    let mut m = usb::UsbMuxing::default();
    m.set_to_phy(true);
    assert_eq!(m.0, regs::MUXING_TO_PHY);
    let mut m = usb::UsbMuxing::default();
    m.set_softcon(true);
    assert_eq!(m.0, regs::MUXING_SOFTCON);
    let mut p = usb::UsbPwr::default();
    p.set_vbus_detect(true);
    assert_eq!(p.0, regs::PWR_VBUS_DETECT);
    let mut p = usb::UsbPwr::default();
    p.set_vbus_detect_override_en(true);
    assert_eq!(p.0, regs::PWR_VBUS_DETECT_OVERRIDE_EN);
    let mut c = usb::MainCtrl::default();
    c.set_controller_en(true);
    assert_eq!(c.0, regs::MAIN_CONTROLLER_EN);
    let mut s = usb::SieCtrl::default();
    s.set_ep0_int_1buf(true);
    assert_eq!(s.0, regs::SIE_CTRL_EP0_INT_1BUF);
    let mut s = usb::SieCtrl::default();
    s.set_pullup_en(true);
    assert_eq!(s.0, regs::SIE_CTRL_PULLUP_EN);
}

#[test]
fn status_flags() {
    for word in WORDS {
        let s = usb::SieStatus(word);
        assert_eq!(regs::is_set(word, regs::SIE_STATUS_SUSPENDED), s.suspended());
        assert_eq!(regs::is_set(word, regs::SIE_STATUS_RESUME), s.resume());
        assert_eq!(regs::is_set(word, regs::SIE_STATUS_SETUP_REC), s.setup_rec());
        assert_eq!(regs::is_set(word, regs::SIE_STATUS_BUS_RESET), s.bus_reset());
        let i = usb::Int(word);
        assert_eq!(regs::is_set(word, regs::INT_BUFF_STATUS), i.buff_status());
        assert_eq!(regs::is_set(word, regs::INT_BUS_RESET), i.bus_reset());
        assert_eq!(regs::is_set(word, regs::INT_DEV_SUSPEND), i.dev_suspend());
        assert_eq!(regs::is_set(word, regs::INT_DEV_RESUME_FROM_HOST), i.dev_resume_from_host());
        assert_eq!(regs::is_set(word, regs::INT_SETUP_REQ), i.setup_req());
    }
    let mut s = usb::SieStatus::default();
    s.set_bus_reset(true);
    s.set_setup_rec(true);
    s.set_resume(true);
    s.set_suspended(true);
    assert_eq!(
        s.0,
        regs::SIE_STATUS_BUS_RESET
            | regs::SIE_STATUS_SETUP_REC
            | regs::SIE_STATUS_RESUME
            | regs::SIE_STATUS_SUSPENDED
    );
    let mut i = usb::Int::default();
    i.set_bus_reset(true);
    i.set_dev_resume_from_host(true);
    i.set_dev_suspend(true);
    i.set_setup_req(true);
    i.set_buff_status(true);
    assert_eq!(
        i.0,
        regs::INT_BUS_RESET
            | regs::INT_DEV_RESUME_FROM_HOST
            | regs::INT_DEV_SUSPEND
            | regs::INT_SETUP_REQ
            | regs::INT_BUFF_STATUS
    );
}

#[test]
fn endpoint_bits() {
    for word in WORDS {
        for n in 0..16 {
            assert_eq!(regs::ep_in(word, n), usb::BuffStatus(word).ep_in(n));
            assert_eq!(regs::ep_out(word, n), usb::BuffStatus(word).ep_out(n));
            assert_eq!(regs::ep_in(word, n), usb::BuffCpuShouldHandle(word).ep_in(n));
            assert_eq!(regs::ep_out(word, n), usb::BuffCpuShouldHandle(word).ep_out(n));
        }
    }
}

#[test]
fn stall_arm_flags() {
    let mut a = usb::EpStallArm::default();
    a.set_ep0_in(true);
    assert_eq!(a.0, regs::STALL_ARM_EP0_IN);
    let mut a = usb::EpStallArm::default();
    a.set_ep0_out(true);
    assert_eq!(a.0, regs::STALL_ARM_EP0_OUT);
}

#[test]
fn wide_fields() {
    for active in [0u16, 1, 0x7fff, 0x8000, 0xfffe, 0xffff] {
        let mut w = usb::IntEpCtrl::default();
        w.set_int_ep_active(active);
        assert_eq!(regs::int_ep_active(active), w.0);
    }
    assert_eq!(regs::int_ep_active(0xfffe), 0xfffc);
    for addr in [0u8, 1, 0x2a, 0x7f, 0x80, 0xff] {
        let mut w = usb::AddrEndp::default();
        w.set_address(addr);
        assert_eq!(regs::address(addr), w.0);
    }
    assert_eq!(regs::address(0xaa), 0x2a);
}

#[test]
fn registers_are_where_the_controller_has_them() {
    let u = rp_pac::USB;
    let d = rp_pac::USB_DPRAM;
    let mut all = vec![
        (Reg::AddrEndp, u.addr_endp().as_ptr() as usize),
        (Reg::MainCtrl, u.main_ctrl().as_ptr() as usize),
        (Reg::SieCtrl, u.sie_ctrl().as_ptr() as usize),
        (Reg::SieStatus, u.sie_status().as_ptr() as usize),
        (Reg::IntEpCtrl, u.int_ep_ctrl().as_ptr() as usize),
        (Reg::BuffStatus, u.buff_status().as_ptr() as usize),
        (Reg::BuffCpuShouldHandle, u.buff_cpu_should_handle().as_ptr() as usize),
        (Reg::EpStallArm, u.ep_stall_arm().as_ptr() as usize),
        (Reg::UsbMuxing, u.usb_muxing().as_ptr() as usize),
        (Reg::UsbPwr, u.usb_pwr().as_ptr() as usize),
        (Reg::Intr, u.intr().as_ptr() as usize),
        (Reg::Inte, u.inte().as_ptr() as usize),
        (Reg::Ints, u.ints().as_ptr() as usize),
    ];
    for n in 0..15 {
        all.push((Reg::EpInControl(n), d.ep_in_control(n).as_ptr() as usize));
        all.push((Reg::EpOutControl(n), d.ep_out_control(n).as_ptr() as usize));
    }
    for n in 0..16 {
        all.push((Reg::EpInBufferControl(n), d.ep_in_buffer_control(n).as_ptr() as usize));
        all.push((Reg::EpOutBufferControl(n), d.ep_out_buffer_control(n).as_ptr() as usize));
    }
    let mut seen = Vec::new();
    for (reg, addr) in all {
        let place = reg.place();
        match place {
            Place::Controller(n) => {
                assert_eq!(u.as_ptr() as usize + 4 * n, addr);
                assert!(n < 39);
            }
            Place::Dpram(n) => {
                assert_eq!(d.as_ptr() as usize + 4 * n, addr);
                assert!(n < 64);
            }
        }
        assert!(!seen.contains(&place));
        seen.push(place);
    }
}
