use vstd::prelude::*;

use crate::allocator::LINEAR_MAP_BASE;

verus! {

/// Physical base address of the PL011 UART on the QEMU `virt` machine.
pub const PL011_PHYS_BASE: u64 = 0x0900_0000;

/// Base address of the PL011 UART in the linear map.
pub const PL011_BASE: u64 = PL011_PHYS_BASE + LINEAR_MAP_BASE;

/// Offset of the data register.
pub const UART_DR_OFFSET: u64 = 0x00;

/// Offset of the flag register.
pub const UART_FR_OFFSET: u64 = 0x18;

/// Flag register bit: the transmit FIFO is full.
pub const UART_FR_TXFF: u32 = 0x20;

/// Address of the data register of the UART at `base`.
pub fn uart_dr(base: u64) -> (r: u64)
    ensures
        r == base + UART_DR_OFFSET,
{
    base + UART_DR_OFFSET
}

/// Address of the flag register of the UART at `base`.
pub fn uart_fr(base: u64) -> (r: u64)
    requires
        base + UART_FR_OFFSET <= u64::MAX,
    ensures
        r == base + UART_FR_OFFSET,
{
    base + UART_FR_OFFSET
}

/// Whether the flag register value `flags` lets a byte be written, that is,
/// whether the transmit FIFO is not full.
pub fn can_transmit(flags: u32) -> (r: bool)
    ensures
        r == (flags & UART_FR_TXFF == 0),
{
    flags & UART_FR_TXFF == 0
}

/// The ASCII character of the hexadecimal digit `n` (lower case).
pub open spec fn hex_digit(n: u64) -> u8 {
    if n < 10 {
        (48 + n) as u8
    } else {
        (97 + n - 10) as u8
    }
}

/// The four bits of `value` that start at bit `4 * shift`.
pub open spec fn nibble(value: u64, shift: int) -> u64 {
    (value >> ((4 * shift) as u64)) & 0xf
}

/// The 16 hexadecimal digits of `value`, most significant first.
pub open spec fn hex_digits(value: u64) -> Seq<u8> {
    Seq::new(16, |k: int| hex_digit(nibble(value, 15 - k)))
}

/// `value` written as `0x` and 16 lower-case hexadecimal digits.
pub open spec fn hex_text(value: u64) -> Seq<u8> {
    seq![48u8, 120u8] + hex_digits(value)
}

/// The value of the hexadecimal digit character `c` (`0-9`, `a-f`).
pub open spec fn digit_value(c: u8) -> u64 {
    if c <= 57 {
        (c - 48) as u64
    } else {
        (c - 87) as u64
    }
}

/// The number that the hexadecimal digits `digits` denote, most significant
/// first, kept to 64 bits.
pub open spec fn hex_value(digits: Seq<u8>) -> u64
    decreases digits.len(),
{
    if digits.len() == 0 {
        0
    } else {
        (hex_value(digits.drop_last()) << 4u64) | digit_value(digits.last())
    }
}

proof fn lemma_digit_round_trip(n: u64)
    requires
        n < 16,
    ensures
        digit_value(hex_digit(n)) == n,
{
}

proof fn lemma_hex_prefix(value: u64, k: int)
    requires
        1 <= k <= 16,
    ensures
        hex_value(hex_digits(value).take(k)) == value >> ((4 * (16 - k)) as u64),
    decreases k,
{
    let d = hex_digits(value).take(k);
    let s = (4 * (16 - k)) as u64;
    assert(nibble(value, 16 - k) == (value >> s) & 0xf);
    assert((value >> s) & 0xf < 16) by (bit_vector);
    lemma_digit_round_trip(nibble(value, 16 - k));
    assert(d.last() == hex_digit(nibble(value, 16 - k)));
    assert(hex_value(d) == (hex_value(d.drop_last()) << 4u64) | digit_value(d.last()));
    if k == 1 {
        assert(d.drop_last() =~= Seq::<u8>::empty());
        assert(hex_value(d.drop_last()) == 0);
        assert(s == 60);
        assert((0u64 << 4u64) | ((value >> 60u64) & 0xf) == value >> 60u64) by (bit_vector);
    } else {
        assert(d.drop_last() =~= hex_digits(value).take(k - 1));
        lemma_hex_prefix(value, k - 1);
        let t = (4 * (16 - (k - 1))) as u64;
        assert(((value >> t) << 4u64) | ((value >> s) & 0xf) == value >> s) by (bit_vector)
            requires
                t == s + 4,
                s <= 56,
        ;
    }
}

/// The digit characters are, in order, `0` to `9` and then `a` to `f`: each
/// is one of those ASCII characters, and a larger digit has a larger
/// character (which fixes every character).
pub proof fn lemma_hex_digit_chars(n: u64, m: u64)
    ensures
        n < 16 ==> (48 <= hex_digit(n) <= 57 || 97 <= hex_digit(n) <= 102),
        n < m < 16 ==> hex_digit(n) < hex_digit(m),
{
}

/// The digits of `value`, read back as a hexadecimal number, give `value`:
/// the 16 digits that `put_hex_u64` writes after `0x` lose nothing.
pub proof fn lemma_hex_round_trip(value: u64)
    ensures
        hex_text(value).len() == 18,
        hex_text(value).take(2) == seq![48u8, 120u8],
        hex_value(hex_text(value).skip(2)) == value,
{
    lemma_hex_prefix(value, 16);
    assert(hex_digits(value).take(16) =~= hex_digits(value));
    assert(hex_text(value).skip(2) =~= hex_digits(value));
    assert(hex_text(value).take(2) =~= seq![48u8, 120u8]);
    assert(value >> 0u64 == value) by (bit_vector);
}

/// What the driver of a transmission does next.
#[derive(Debug, PartialEq, Eq, Structural)]
pub enum TxAction {
    /// The transmit FIFO is full: read the flag register again.
    Wait,
    /// Write `value` to the data register at `addr`.
    Write { addr: u64, value: u32 },
}

/// A transmission of a byte string through the PL011 UART at `base`. The
/// driver reads the flag register at `flag_register()` while `pending()`,
/// hands the value read to `on_flags`, and performs the action it returns.
pub struct Transmitter {
    base: u64,
    bytes: Vec<u8>,
    pos: usize,
}

impl Transmitter {
    pub closed spec fn spec_base(&self) -> u64 {
        self.base
    }

    /// The bytes that the transmission sends, in order.
    pub closed spec fn spec_bytes(&self) -> Seq<u8> {
        self.bytes@
    }

    /// How many of the bytes have been written.
    pub closed spec fn spec_sent(&self) -> int {
        self.pos as int
    }

    pub closed spec fn wf(&self) -> bool {
        &&& self.pos <= self.bytes@.len()
        &&& self.base + UART_FR_OFFSET <= u64::MAX
    }

    fn with_bytes(base: u64, bytes: Vec<u8>) -> (r: Self)
        requires
            base + UART_FR_OFFSET <= u64::MAX,
        ensures
            r.wf(),
            r.spec_base() == base,
            r.spec_bytes() == bytes@,
            r.spec_sent() == 0,
    {
        Transmitter { base, bytes, pos: 0 }
    }

    /// Whether bytes remain to be written.
    pub fn pending(&self) -> (r: bool)
        requires
            self.wf(),
        ensures
            r == (self.spec_sent() < self.spec_bytes().len()),
    {
        self.pos < self.bytes.len()
    }

    /// The address of the flag register to read before the next byte.
    pub fn flag_register(&self) -> (r: u64)
        requires
            self.wf(),
        ensures
            r == self.spec_base() + UART_FR_OFFSET,
    {
        uart_fr(self.base)
    }

    /// Given the value just read from the flag register, decides whether to
    /// wait, or to write the next byte (widened to 32 bits) to the data
    /// register, in which case that byte counts as sent.
    pub fn on_flags(&mut self, flags: u32) -> (r: TxAction)
        requires
            old(self).wf(),
            old(self).spec_sent() < old(self).spec_bytes().len(),
        ensures
            final(self).wf(),
            final(self).spec_base() == old(self).spec_base(),
            final(self).spec_bytes() == old(self).spec_bytes(),
            flags & UART_FR_TXFF != 0 ==> r == TxAction::Wait && final(self).spec_sent()
                == old(self).spec_sent(),
            flags & UART_FR_TXFF == 0 ==> r == (TxAction::Write {
                addr: (old(self).spec_base() + UART_DR_OFFSET) as u64,
                value: old(self).spec_bytes()[old(self).spec_sent()] as u32,
            }) && final(self).spec_sent() == old(self).spec_sent() + 1,
    {
        if !can_transmit(flags) {
            return TxAction::Wait;
        }
        let byte = self.bytes[self.pos];
        proof {
            assert(self.pos < self.bytes.len());
        }
        self.pos = self.pos + 1;
        TxAction::Write { addr: uart_dr(self.base), value: byte as u32 }
    }
}

/// The transmission of the bytes `s` through the UART at `base`.
pub fn puts(base: u64, s: &[u8]) -> (r: Transmitter)
    requires
        base + UART_FR_OFFSET <= u64::MAX,
    ensures
        r.wf(),
        r.spec_base() == base,
        r.spec_bytes() == s@,
        r.spec_sent() == 0,
{
    let mut bytes: Vec<u8> = Vec::new();
    let mut i: usize = 0;
    while i < s.len()
        invariant
            i <= s@.len(),
            bytes@ == s@.take(i as int),
        decreases s@.len() - i,
    {
        bytes.push(s[i]);
        proof {
            assert(s@.take(i + 1) =~= s@.take(i as int).push(s@[i as int]));
        }
        i = i + 1;
    }
    proof {
        assert(s@.take(s@.len() as int) =~= s@);
    }
    Transmitter::with_bytes(base, bytes)
}

/// The transmission of the single byte `byte` through the UART at `base`.
pub fn write_byte(base: u64, byte: u8) -> (r: Transmitter)
    requires
        base + UART_FR_OFFSET <= u64::MAX,
    ensures
        r.wf(),
        r.spec_base() == base,
        r.spec_bytes() == seq![byte],
        r.spec_sent() == 0,
{
    let mut bytes: Vec<u8> = Vec::new();
    bytes.push(byte);
    proof {
        assert(bytes@ =~= seq![byte]);
    }
    Transmitter::with_bytes(base, bytes)
}

/// The character of the hexadecimal digit `nibble`.
fn hex_digit_char(nibble: u8) -> (r: u8)
    requires
        nibble < 16,
    ensures
        r == hex_digit(nibble as u64),
{
    if nibble <= 9 {
        48u8 + nibble
    } else {
        97u8 + (nibble - 10)
    }
}

/// `value` written as `0x` and 16 lower-case hexadecimal digits.
pub fn hex_bytes(value: u64) -> (r: Vec<u8>)
    ensures
        r@ == hex_text(value),
{
    let mut bytes: Vec<u8> = Vec::new();
    bytes.push(48u8);
    bytes.push(120u8);
    let mut k: u64 = 0;
    while k < 16
        invariant
            k <= 16,
            bytes@ == seq![48u8, 120u8] + hex_digits(value).take(k as int),
        decreases 16 - k,
    {
        let shift = 15 - k;
        let n = ((value >> (shift * 4)) & 0xf) as u8;
        proof {
            assert(((value >> (shift * 4)) & 0xf) < 16) by (bit_vector);
        }
        bytes.push(hex_digit_char(n));
        proof {
            assert(seq![48u8, 120u8] + hex_digits(value).take(k + 1) =~= (seq![48u8, 120u8]
                + hex_digits(value).take(k as int)).push(hex_digits(value)[k as int]));
        }
        k = k + 1;
    }
    proof {
        assert(hex_digits(value).take(16) =~= hex_digits(value));
    }
    bytes
}

/// The transmission of `value` as `0x` and 16 lower-case hexadecimal digits
/// through the UART at `base`.
pub fn put_hex_u64(base: u64, value: u64) -> (r: Transmitter)
    requires
        base + UART_FR_OFFSET <= u64::MAX,
    ensures
        r.wf(),
        r.spec_base() == base,
        r.spec_bytes() == hex_text(value),
        r.spec_sent() == 0,
{
    Transmitter::with_bytes(base, hex_bytes(value))
}

} // verus!
