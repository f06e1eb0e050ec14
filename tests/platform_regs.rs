use meowsbi::clint::CLINT;
use meowsbi::mem::{HartData, HartStorage};
use meowsbi::mmio::Mmio;
use meowsbi::platform::{reg_base, DeviceInfo, QEMU};
use meowsbi::serial::{early_print, early_print_setup, print, putc};
use meowsbi::uart::{rx_ready, tx_ready, UART16550};

fn no_info() -> DeviceInfo {
    DeviceInfo {
        clint_reg: None,
        uart_reg: None,
        uart_offset: None,
        uart_shift: None,
        uart_clk: None,
        uart_baud: None,
    }
}

#[test]
fn board_defaults() {
    let q = QEMU::new(1, &no_info());
    assert_eq!(q.hartid, 1);
    assert_eq!(q.clint, CLINT::new(0x200_0000, 1));
    assert_eq!(q.serial, UART16550::new(0x1000_0000, 0, 11_059_200, 115200));
    assert!(q.is_valid());
}

#[test]
fn board_from_tree_properties() {
    let info = DeviceInfo {
        clint_reg: Some(vec![0, 0, 0, 0, 0x02, 0, 0, 0, 0, 0, 0, 0, 0, 1, 0, 0]),
        uart_reg: Some(vec![0, 0, 0, 0, 0x10, 0, 0x10, 0, 0, 0, 0, 0, 0, 0, 1, 0]),
        uart_offset: Some(0x20),
        uart_shift: Some(2),
        uart_clk: Some(3_686_400),
        uart_baud: Some(9600),
    };
    let q = QEMU::new(0, &info);
    assert_eq!(q.clint.base, 0x200_0000);
    assert_eq!(q.serial, UART16550::new(0x1000_1020, 2, 3_686_400, 9600));
    let short = DeviceInfo { clint_reg: Some(vec![1, 2, 3]), ..no_info() };
    assert_eq!(QEMU::new(0, &short).clint.base, 0x200_0000);
}

#[test]
fn reg_property_first_address() {
    assert_eq!(reg_base(&vec![0x01, 0x23, 0x45, 0x67, 0x89, 0xab, 0xcd, 0xef, 9]), Some(0x0123_4567_89ab_cdef));
    assert_eq!(reg_base(&vec![1, 2, 3, 4, 5, 6, 7]), None);
}

#[test]
fn interruptor_registers() {
    let c = CLINT::new(0x200_0000, 2);
    assert!(c.is_valid());
    assert_eq!(c.setup_leader(), Mmio::W64 { addr: 0x200_bff8, dword: 0 });
    assert_eq!(
        c.setup(),
        vec![
            Mmio::W64 { addr: 0x200_4010, dword: u64::MAX >> 4 },
            Mmio::W32 { addr: 0x200_0008, word: 0 },
        ]
    );
    assert_eq!(c.set_timer(99), Mmio::W64 { addr: 0x200_4010, dword: 99 });
    assert_eq!(c.send_soft(1), Mmio::W32 { addr: 0x200_0004, word: 1 });
    assert_eq!(c.clear_soft(), Mmio::W32 { addr: 0x200_0008, word: 0 });
}

#[test]
fn serial_port_setup() {
    let u = UART16550::new(0x1000_0000, 0, 11_059_200, 115200);
    let w = u.init();
    assert_eq!(w.len(), 7);
    assert_eq!(w[0], Mmio::W8 { addr: 0x1000_0003, byte: 0x80 });
    assert_eq!(w[1], Mmio::W8 { addr: 0x1000_0000, byte: 6 });
    assert_eq!(w[2], Mmio::W8 { addr: 0x1000_0001, byte: 0 });
    assert_eq!(w[3], Mmio::W8 { addr: 0x1000_0003, byte: 3 });
    assert_eq!(w[4], Mmio::W8 { addr: 0x1000_0004, byte: 0 });
    assert_eq!(w[5], Mmio::W8 { addr: 0x1000_0001, byte: 0 });
    assert_eq!(w[6], Mmio::W8 { addr: 0x1000_0002, byte: 7 });
    let slow = UART16550::new(0x1000_0000, 2, 1_000_000 * 16 * 3, 3);
    assert_eq!(slow.init()[2], Mmio::W8 { addr: 0x1000_0004, byte: (1_000_000u64 / 256) as u8 });
    assert_eq!(slow.status_addr(), 0x1000_0014);
    assert_eq!(slow.data_addr(), 0x1000_0000);
    let wide = UART16550::new(0x1000_0000, 20, 3_686_400, 9600);
    assert!(wide.is_valid());
    assert_eq!(wide.status_addr(), 0x1000_0000 + (5 << 20));
    assert!(!UART16550::new(usize::MAX - 4, 0, 1, 1).is_valid());
    assert!(UART16550::new(usize::MAX - 5, 0, 1, 1).is_valid());
    assert!(!UART16550::new(0, 64, 1, 1).is_valid());
    assert!(!UART16550::new(0, 62, 1, 1).is_valid());
    assert!(!UART16550::new(0, 0, 1, 0).is_valid());
    assert!(tx_ready(0x60));
    assert!(!tx_ready(0x01));
    assert!(rx_ready(0x61));
    assert!(!rx_ready(0x60));
}

#[test]
fn early_port_setup() {
    let w = early_print_setup();
    assert_eq!(w.len(), 7);
    assert_eq!(w[0], Mmio::W8 { addr: 0x1000_100c, byte: 0x80 });
    assert_eq!(w[6], Mmio::W8 { addr: 0x1000_1008, byte: 7 });
    assert_eq!(
        early_print("ok"),
        vec![Mmio::W8 { addr: 0x1000_1000, byte: b'o' }, Mmio::W8 { addr: 0x1000_1000, byte: b'k' }]
    );
}

#[test]
fn console_output_goes_byte_by_byte() {
    let q = QEMU::new(0, &no_info());
    assert_eq!(putc(&q, b'A'), Mmio::W8 { addr: 0x1000_0000, byte: b'A' });
    let w = print(&q, "hi\n");
    assert_eq!(
        w,
        vec![
            Mmio::W8 { addr: 0x1000_0000, byte: b'h' },
            Mmio::W8 { addr: 0x1000_0000, byte: b'i' },
            Mmio::W8 { addr: 0x1000_0000, byte: b'\n' },
        ]
    );
    assert!(print(&q, "").is_empty());
}

#[test]
fn leader_and_secondary_start_up_writes() {
    let leader = QEMU::new(0, &no_info());
    let w = leader.early_init();
    assert_eq!(w.len(), 10);
    assert_eq!(w[0], Mmio::W64 { addr: 0x200_bff8, dword: 0 });
    assert_eq!(w[9], Mmio::W32 { addr: 0x200_0000, word: 0 });
    let other = QEMU::new(3, &no_info());
    assert_eq!(other.early_init(), other.clint.setup());
    assert_eq!(other.send_ipi(0), Mmio::W32 { addr: 0x200_0000, word: 1 });
    assert_eq!(other.clear_ipi(), Mmio::W32 { addr: 0x200_000c, word: 0 });
    assert_eq!(other.set_timer(5), Mmio::W64 { addr: 0x200_4018, dword: 5 });
    assert_eq!(other.put_char(b'z'), Mmio::W8 { addr: 0x1000_0000, byte: b'z' });
}

#[test]
fn control_block_starts_empty() {
    let d = HartData::new();
    assert!(!d.ipi_pending);
    assert_eq!(d.ipi_req, meowsbi::ipi::IPIReq::S_IPI);
    assert!(d.platform.is_none());
    let s: HartStorage<64> = HartStorage::new();
    assert!(!s.data.ipi_pending);
    assert_eq!(s.stack.bytes, [0u8; 64]);
    let with = HartData { platform: Some(QEMU::new(0, &no_info())), ..HartData::new() };
    assert_eq!(with.platform().hartid, 0);
}
