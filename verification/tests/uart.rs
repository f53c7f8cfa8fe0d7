use lib::uart::{
    can_transmit, hex_bytes, put_hex_u64, puts, uart_dr, uart_fr, write_byte, Transmitter, TxAction,
    PL011_BASE, PL011_PHYS_BASE, UART_FR_TXFF,
};

/// Drives `tx` with a flag register that reports a full FIFO on every other
/// read, and collects what is written.
fn drive(mut tx: Transmitter, base: u64) -> Vec<u8> {
    let mut out = Vec::new();
    let mut full = true;
    while tx.pending() {
        assert_eq!(tx.flag_register(), base + 0x18);
        let flags = if full { UART_FR_TXFF } else { 0 };
        match tx.on_flags(flags) {
            TxAction::Wait => assert!(full),
            TxAction::Write { addr, value } => {
                assert!(!full);
                assert_eq!(addr, base);
                assert!(value < 256);
                out.push(value as u8);
            }
        }
        full = !full;
    }
    out
}

#[test]
fn register_addresses() {
    assert_eq!(PL011_BASE, 0xffff_ffff_0900_0000);
    assert_eq!(uart_dr(PL011_PHYS_BASE), 0x0900_0000);
    assert_eq!(uart_fr(PL011_PHYS_BASE), 0x0900_0018);
    assert_eq!(uart_fr(PL011_BASE), 0xffff_ffff_0900_0018);
}

#[test]
fn transmit_waits_while_fifo_full() {
    assert!(can_transmit(0));
    assert!(can_transmit(0x90));
    assert!(!can_transmit(0x20));
    assert!(!can_transmit(0xff));
}

#[test]
fn puts_sends_every_byte_in_order() {
    let out = drive(puts(PL011_BASE, b"hello from main\r\n"), PL011_BASE);
    assert_eq!(out, b"hello from main\r\n".to_vec());
}

#[test]
fn puts_of_nothing_sends_nothing() {
    let tx = puts(PL011_BASE, b"");
    assert!(!tx.pending());
}

#[test]
fn write_byte_sends_one_byte() {
    let out = drive(write_byte(PL011_PHYS_BASE, b'A'), PL011_PHYS_BASE);
    assert_eq!(out, vec![b'A']);
}

#[test]
fn put_hex_u64_writes_sixteen_digits() {
    let out = drive(put_hex_u64(PL011_BASE, 0x5ff7e), PL011_BASE);
    assert_eq!(String::from_utf8(out).unwrap(), "0x000000000005ff7e");
}

#[test]
fn put_hex_u64_extremes() {
    let zero = drive(put_hex_u64(PL011_BASE, 0), PL011_BASE);
    assert_eq!(String::from_utf8(zero).unwrap(), "0x0000000000000000");
    let max = drive(put_hex_u64(PL011_BASE, u64::MAX), PL011_BASE);
    assert_eq!(String::from_utf8(max).unwrap(), "0xffffffffffffffff");
    let mixed = drive(put_hex_u64(PL011_BASE, 0x0123_4567_89ab_cdef), PL011_BASE);
    assert_eq!(String::from_utf8(mixed).unwrap(), "0x0123456789abcdef");
}

#[test]
fn put_hex_u64_reads_back() {
    for v in [0u64, 1, 0x4008_2000, 0xdead_beef_0000_0001, u64::MAX] {
        let out = drive(put_hex_u64(PL011_BASE, v), PL011_BASE);
        let text = String::from_utf8(out).unwrap();
        assert_eq!(u64::from_str_radix(&text[2..], 16).unwrap(), v);
    }
}

#[test]
fn hex_bytes_of_a_value() {
    assert_eq!(hex_bytes(0x4008_2000), b"0x0000000040082000".to_vec());
}
