use vstd::prelude::*;

use crate::uart::{hex_bytes, hex_text};

verus! {

/// The registers that the exception vectors save before they call the
/// handler: the general registers x0 to x30, the number of the vector that
/// was taken, and ESR_EL1, FAR_EL1, ELR_EL1 and SPSR_EL1.
pub struct ExceptionFrame {
    pub regs: [u64; 31],
    pub vector: u64,
    pub esr: u64,
    pub far: u64,
    pub elr: u64,
    pub spsr: u64,
}

/// Exception class field of an ESR_EL1 value (bits 26 to 31).
pub open spec fn exception_class(esr: u64) -> u64 {
    (esr >> 26u64) & 0x3f
}

/// Data fault status code field of an ESR_EL1 value (bits 0 to 5).
pub open spec fn fault_status(esr: u64) -> u64 {
    esr & 0x3f
}

/// A syndrome reports a translation fault exactly when its exception class
/// (the value of bits 26 to 31) is a data abort from a lower or the current
/// exception level (0x24 or 0x25), and its fault status code (the value of
/// bits 0 to 5) is that of a translation fault at level 0 to 3 (4 to 7).
/// Access flag faults (8 to 11) and permission faults (12 to 15) are not.
pub proof fn lemma_translation_fault(esr: u64)
    ensures
        translation_fault(esr) <==> ((esr / 0x400_0000 % 64 == 0x24 || esr / 0x400_0000 % 64
            == 0x25) && 4 <= esr % 64 <= 7),
        8 <= esr % 64 <= 15 ==> !translation_fault(esr),
{
    assert((esr >> 26u64) & 0x3f == esr / 0x400_0000 % 64 && esr & 0x3f == esr % 64)
        by (bit_vector);
}

/// The part of a vector's name that says where the exception came from:
/// vectors come in groups of four for the current level with SP_EL0, the
/// current level with SP_ELx, a lower level in AArch64 and in AArch32.
pub open spec fn vector_origin(group: u64) -> Seq<char> {
    if group == 0 {
        "current_el_sp0"@
    } else if group == 1 {
        "current_el_spx"@
    } else if group == 2 {
        "lower_el_a64"@
    } else {
        "lower_el_a32"@
    }
}

/// The part of a vector's name that says what kind of exception it is: in
/// each group of four, synchronous, IRQ, FIQ and SError in turn.
pub open spec fn vector_kind(kind: u64) -> Seq<char> {
    if kind == 0 {
        "sync"@
    } else if kind == 1 {
        "irq"@
    } else if kind == 2 {
        "fiq"@
    } else {
        "serror"@
    }
}

/// The synchronous vectors are the first of each of the four groups, the
/// ones whose name ends in `sync`.
pub proof fn lemma_synchronous_vector(vector: u64)
    ensures
        synchronous_vector(vector) <==> (vector < 16 && vector % 4 == 0),
        synchronous_vector(vector) <==> (vector < 16 && vector_kind(vector % 4) == "sync"@),
{
    reveal_strlit("sync");
    reveal_strlit("irq");
    reveal_strlit("fiq");
    reveal_strlit("serror");
    if vector < 16 && vector % 4 != 0 {
        assert(vector_kind(vector % 4).len() != 4 || vector_kind(vector % 4)[0] != 's');
    }
}

/// The name of each of the 16 vectors is its origin (from the vector's
/// group of four) and its kind (from its place in the group), joined by an
/// underscore; any other number is named `unknown`.
pub proof fn lemma_vector_name(vector: u64)
    ensures
        vector < 16 ==> vector_name_text(vector) == vector_origin(vector / 4) + "_"@ + vector_kind(
            vector % 4,
        ),
        vector >= 16 ==> vector_name_text(vector) == "unknown"@,
{
    reveal_strlit("current_el_sp0");
    reveal_strlit("current_el_spx");
    reveal_strlit("lower_el_a64");
    reveal_strlit("lower_el_a32");
    reveal_strlit("sync");
    reveal_strlit("irq");
    reveal_strlit("fiq");
    reveal_strlit("serror");
    reveal_strlit("_");
    reveal_strlit("current_el_sp0_sync");
    reveal_strlit("current_el_sp0_irq");
    reveal_strlit("current_el_sp0_fiq");
    reveal_strlit("current_el_sp0_serror");
    reveal_strlit("current_el_spx_sync");
    reveal_strlit("current_el_spx_irq");
    reveal_strlit("current_el_spx_fiq");
    reveal_strlit("current_el_spx_serror");
    reveal_strlit("lower_el_a64_sync");
    reveal_strlit("lower_el_a64_irq");
    reveal_strlit("lower_el_a64_fiq");
    reveal_strlit("lower_el_a64_serror");
    reveal_strlit("lower_el_a32_sync");
    reveal_strlit("lower_el_a32_irq");
    reveal_strlit("lower_el_a32_fiq");
    reveal_strlit("lower_el_a32_serror");
    if vector < 16 {
        assert(vector_name_text(vector) =~= vector_origin(vector / 4) + "_"@ + vector_kind(
            vector % 4,
        ));
    }
}

/// Whether `esr` reports a data abort (from a lower or the current exception
/// level) caused by a translation fault at level 0, 1, 2 or 3.
pub open spec fn translation_fault(esr: u64) -> bool {
    &&& (exception_class(esr) == 0x24 || exception_class(esr) == 0x25)
    &&& 4 <= fault_status(esr) <= 7
}

/// Whether `vector` is one of the four vectors taken for a synchronous
/// exception.
pub open spec fn synchronous_vector(vector: u64) -> bool {
    vector == 0 || vector == 4 || vector == 8 || vector == 12
}

/// The name of exception vector `vector`.
pub open spec fn vector_name_text(vector: u64) -> Seq<char> {
    if vector == 0 {
        "current_el_sp0_sync"@
    } else if vector == 1 {
        "current_el_sp0_irq"@
    } else if vector == 2 {
        "current_el_sp0_fiq"@
    } else if vector == 3 {
        "current_el_sp0_serror"@
    } else if vector == 4 {
        "current_el_spx_sync"@
    } else if vector == 5 {
        "current_el_spx_irq"@
    } else if vector == 6 {
        "current_el_spx_fiq"@
    } else if vector == 7 {
        "current_el_spx_serror"@
    } else if vector == 8 {
        "lower_el_a64_sync"@
    } else if vector == 9 {
        "lower_el_a64_irq"@
    } else if vector == 10 {
        "lower_el_a64_fiq"@
    } else if vector == 11 {
        "lower_el_a64_serror"@
    } else if vector == 12 {
        "lower_el_a32_sync"@
    } else if vector == 13 {
        "lower_el_a32_irq"@
    } else if vector == 14 {
        "lower_el_a32_fiq"@
    } else if vector == 15 {
        "lower_el_a32_serror"@
    } else {
        "unknown"@
    }
}

/// Whether the exception syndrome `esr` reports a translation fault on a
/// data access.
pub fn is_translation_fault(esr: u64) -> (r: bool)
    ensures
        r == translation_fault(esr),
        r == ((esr / 0x400_0000 % 64 == 0x24 || esr / 0x400_0000 % 64 == 0x25) && 4 <= esr % 64
            <= 7),
{
    proof {
        lemma_translation_fault(esr);
    }
    let ec = (esr >> 26) & 0x3f;
    let dfsc = esr & 0x3f;
    (ec == 0x24 || ec == 0x25) && (0b000100 <= dfsc && dfsc <= 0b000111)
}

/// Whether `vector` is the vector of a synchronous exception.
pub fn is_synchronous_vector(vector: u64) -> (r: bool)
    ensures
        r == synchronous_vector(vector),
        r == (vector < 16 && vector % 4 == 0),
{
    vector == 0 || vector == 4 || vector == 8 || vector == 12
}

/// Whether an exception may be resumed when the fault tests are enabled: it
/// is a synchronous translation fault.
pub fn should_resume_after_test(frame: &ExceptionFrame) -> (r: bool)
    ensures
        r == (synchronous_vector(frame.vector) && translation_fault(frame.esr)),
{
    is_synchronous_vector(frame.vector) && is_translation_fault(frame.esr)
}

/// The name under which the handler reports exception vector `vector`.
pub fn put_vector_name(vector: u64) -> (r: &'static str)
    ensures
        r@ == vector_name_text(vector),
{
    if vector == 0 {
        "current_el_sp0_sync"
    } else if vector == 1 {
        "current_el_sp0_irq"
    } else if vector == 2 {
        "current_el_sp0_fiq"
    } else if vector == 3 {
        "current_el_sp0_serror"
    } else if vector == 4 {
        "current_el_spx_sync"
    } else if vector == 5 {
        "current_el_spx_irq"
    } else if vector == 6 {
        "current_el_spx_fiq"
    } else if vector == 7 {
        "current_el_spx_serror"
    } else if vector == 8 {
        "lower_el_a64_sync"
    } else if vector == 9 {
        "lower_el_a64_irq"
    } else if vector == 10 {
        "lower_el_a64_fiq"
    } else if vector == 11 {
        "lower_el_a64_serror"
    } else if vector == 12 {
        "lower_el_a32_sync"
    } else if vector == 13 {
        "lower_el_a32_irq"
    } else if vector == 14 {
        "lower_el_a32_fiq"
    } else if vector == 15 {
        "lower_el_a32_serror"
    } else {
        "unknown"
    }
}

/// What the handler decides once it has reported the exception in `frame`:
/// where the fault tests are enabled and the exception is a synchronous
/// translation fault, it steps the return address over the faulting
/// instruction (4 bytes, wrapping) and returns `true` (resume); otherwise it
/// leaves the frame alone and returns `false` (the handler halts).
pub fn rust_exception_handler(frame: &mut ExceptionFrame, tests_enabled: bool) -> (resume: bool)
    ensures
        resume == (tests_enabled && synchronous_vector(old(frame).vector) && translation_fault(
            old(frame).esr,
        )),
        final(frame).elr == if resume {
            vstd::wrapping::u64_specs::wrapping_add(old(frame).elr, 4)
        } else {
            old(frame).elr
        },
        final(frame).regs == old(frame).regs,
        final(frame).vector == old(frame).vector,
        final(frame).esr == old(frame).esr,
        final(frame).far == old(frame).far,
        final(frame).spsr == old(frame).spsr,
{
    if tests_enabled && should_resume_after_test(frame) {
        frame.elr = frame.elr.wrapping_add(4);
        return true;
    }
    false
}

/// The bytes of the ASCII text `s`, one per character.
pub open spec fn ascii(s: Seq<char>) -> Seq<u8> {
    s.map_values(|c: char| c as u8)
}

/// The report that the handler prints for `frame`: the vector's name, the
/// four syndrome registers in hexadecimal, a line on a translation fault, and
/// the resume line where `resume`.
pub open spec fn report_text(frame: ExceptionFrame, resume: bool) -> Seq<u8> {
    let fault_line = if translation_fault(frame.esr) {
        ascii("decoded: translation fault\r\n"@)
    } else {
        Seq::empty()
    };
    let resume_line = if resume {
        ascii("test enabled: resume at next instruction\r\n"@)
    } else {
        Seq::empty()
    };
    ascii("\r\nexception: "@) + ascii(vector_name_text(frame.vector)) + ascii("\r\nesr_el1="@)
        + hex_text(frame.esr) + ascii("\r\nfar_el1="@) + hex_text(frame.far) + ascii(
        "\r\nelr_el1="@,
    ) + hex_text(frame.elr) + ascii("\r\nspsr_el1="@) + hex_text(frame.spsr) + ascii("\r\n"@)
        + fault_line + resume_line
}

/// Appends the characters of `s`, one byte each, to `out`.
fn push_text(out: &mut Vec<u8>, s: &str)
    ensures
        final(out)@ == old(out)@ + ascii(s@),
{
    let n = s.unicode_len();
    let mut i: usize = 0;
    while i < n
        invariant
            n == s@.len(),
            i <= n,
            out@ == old(out)@ + ascii(s@.take(i as int)),
        decreases n - i,
    {
        let c = s.get_char(i);
        out.push(c as u8);
        proof {
            assert(ascii(s@.take(i + 1)) =~= ascii(s@.take(i as int)).push(c as u8));
        }
        i = i + 1;
    }
    proof {
        assert(s@.take(n as int) =~= s@);
    }
}

/// Appends `bytes` to `out`.
fn push_bytes(out: &mut Vec<u8>, bytes: Vec<u8>)
    ensures
        final(out)@ == old(out)@ + bytes@,
{
    let mut i: usize = 0;
    while i < bytes.len()
        invariant
            i <= bytes@.len(),
            out@ == old(out)@ + bytes@.take(i as int),
        decreases bytes@.len() - i,
    {
        out.push(bytes[i]);
        proof {
            assert(bytes@.take(i + 1) =~= bytes@.take(i as int).push(bytes@[i as int]));
        }
        i = i + 1;
    }
    proof {
        assert(bytes@.take(bytes@.len() as int) =~= bytes@);
    }
}

/// The report that the handler prints for `frame`, ending with the resume
/// line where `resume` (the decision of `rust_exception_handler`).
pub fn exception_report(frame: &ExceptionFrame, resume: bool) -> (r: Vec<u8>)
    ensures
        r@ == report_text(*frame, resume),
{
    let mut out: Vec<u8> = Vec::new();
    push_text(&mut out, "\r\nexception: ");
    push_text(&mut out, put_vector_name(frame.vector));
    push_text(&mut out, "\r\nesr_el1=");
    push_bytes(&mut out, hex_bytes(frame.esr));
    push_text(&mut out, "\r\nfar_el1=");
    push_bytes(&mut out, hex_bytes(frame.far));
    push_text(&mut out, "\r\nelr_el1=");
    push_bytes(&mut out, hex_bytes(frame.elr));
    push_text(&mut out, "\r\nspsr_el1=");
    push_bytes(&mut out, hex_bytes(frame.spsr));
    push_text(&mut out, "\r\n");
    if is_translation_fault(frame.esr) {
        push_text(&mut out, "decoded: translation fault\r\n");
    }
    if resume {
        push_text(&mut out, "test enabled: resume at next instruction\r\n");
    }
    proof {
        assert(out@ =~= report_text(*frame, resume));
    }
    out
}

} // verus!
