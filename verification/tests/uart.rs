use hvisor_boot::uart::{console_putchar, MmioWrite, QcomUART, UART_BASE_PHYS};

#[test]
fn putchar_announces_then_queues_the_byte() {
    let uart = QcomUART::new(0x99_4000);
    assert_eq!(
        uart.putchar(b'A'),
        [
            MmioWrite { address: 0x99_4270, value: 1 },
            MmioWrite { address: 0x99_4600, value: 0x0800_0000 },
            MmioWrite { address: 0x99_4700, value: 0x41 },
        ]
    );
}

#[test]
fn setup_announces_one_byte() {
    let uart = QcomUART::new(0x1000);
    assert_eq!(
        uart.setup_tx(),
        [
            MmioWrite { address: 0x1270, value: 1 },
            MmioWrite { address: 0x1600, value: 1 << 27 },
        ]
    );
}

#[test]
fn status_register_follows_the_base() {
    assert_eq!(QcomUART::new(0x99_4000).status_register(), 0x99_4040);
    assert_eq!(QcomUART::new(0).status_register(), 0x40);
    assert_eq!(QcomUART::new(usize::MAX - 0x700).status_register(), usize::MAX - 0x6c0);
}

#[test]
fn busy_is_the_lowest_status_bit() {
    let uart = QcomUART::new(UART_BASE_PHYS);
    assert!(uart.is_busy(0x1));
    assert!(uart.is_busy(0xffff_ffff));
    assert!(!uart.is_busy(0));
    assert!(!uart.is_busy(0xffff_fffe));
}

#[test]
fn every_byte_value_is_sent_unchanged() {
    let uart = QcomUART::new(UART_BASE_PHYS);
    for byte in [0u8, 1, 0x7f, 0x80, 0xff] {
        assert_eq!(uart.putchar(byte)[2].value, byte as u32);
        assert_eq!(uart.putchar(byte)[2].address, UART_BASE_PHYS + 0x700);
    }
}

#[test]
fn console_sends_through_the_platform_uart() {
    assert_eq!(console_putchar(b'\n'), QcomUART::new(UART_BASE_PHYS).putchar(b'\n'));
    assert_eq!(console_putchar(b'h')[2], MmioWrite { address: 0x99_4700, value: 0x68 });
}
