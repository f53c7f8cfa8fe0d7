use lib::exception::{
    exception_report, is_synchronous_vector, is_translation_fault, put_vector_name, rust_exception_handler,
    should_resume_after_test, ExceptionFrame,
};

fn frame(vector: u64, esr: u64, elr: u64) -> ExceptionFrame {
    ExceptionFrame { regs: [7; 31], vector, esr, far: 0x8000_0000, elr, spsr: 0x3c5 }
}

#[test]
fn translation_faults_are_recognised() {
    // data abort, current EL, translation fault level 1
    assert!(is_translation_fault(0x9600_0005));
    // data abort, lower EL, translation fault level 0 and 3
    assert!(is_translation_fault(0x9200_0004));
    assert!(is_translation_fault(0x9200_0007));
    // access flag fault and external abort are not translation faults
    assert!(!is_translation_fault(0x9600_0009));
    assert!(!is_translation_fault(0x9600_0010));
    // instruction abort with a translation fault status
    assert!(!is_translation_fault(0x8600_0005));
    assert!(!is_translation_fault(0));
}

#[test]
fn synchronous_vectors() {
    for v in 0u64..20 {
        assert_eq!(is_synchronous_vector(v), v == 0 || v == 4 || v == 8 || v == 12);
    }
}

#[test]
fn vector_names() {
    assert_eq!(put_vector_name(0), "current_el_sp0_sync");
    assert_eq!(put_vector_name(4), "current_el_spx_sync");
    assert_eq!(put_vector_name(7), "current_el_spx_serror");
    assert_eq!(put_vector_name(9), "lower_el_a64_irq");
    assert_eq!(put_vector_name(15), "lower_el_a32_serror");
    assert_eq!(put_vector_name(16), "unknown");
}

#[test]
fn resume_only_synchronous_translation_faults() {
    assert!(should_resume_after_test(&frame(4, 0x9600_0005, 0)));
    assert!(!should_resume_after_test(&frame(5, 0x9600_0005, 0)));
    assert!(!should_resume_after_test(&frame(4, 0x9600_0010, 0)));
}

#[test]
fn handler_steps_over_the_faulting_instruction() {
    let mut f = frame(4, 0x9600_0005, 0x4008_0100);
    assert!(rust_exception_handler(&mut f, true));
    assert_eq!(f.elr, 0x4008_0104);
    assert_eq!(f.esr, 0x9600_0005);
    assert_eq!(f.regs, [7; 31]);
}

#[test]
fn handler_wraps_the_return_address() {
    let mut f = frame(0, 0x9600_0006, u64::MAX - 1);
    assert!(rust_exception_handler(&mut f, true));
    assert_eq!(f.elr, 2);
}

#[test]
fn handler_halts_without_tests_or_on_other_faults() {
    let mut f = frame(4, 0x9600_0005, 0x1000);
    assert!(!rust_exception_handler(&mut f, false));
    assert_eq!(f.elr, 0x1000);
    let mut g = frame(5, 0x9600_0005, 0x1000);
    assert!(!rust_exception_handler(&mut g, true));
    assert_eq!(g.elr, 0x1000);
}

#[test]
fn report_of_a_resumed_translation_fault() {
    let mut f = ExceptionFrame {
        regs: [0; 31],
        vector: 4,
        esr: 0x9600_0007,
        far: 0x8000_0000,
        elr: 0x4008_0000,
        spsr: 0x3c5,
    };
    let resume = rust_exception_handler(&mut f, true);
    assert!(resume);
    assert_eq!(f.elr, 0x4008_0004);
    f.elr = 0x4008_0000;
    let report = exception_report(&f, resume);
    assert_eq!(
        String::from_utf8(report).unwrap(),
        "\r\nexception: current_el_spx_sync\r\nesr_el1=0x0000000096000007\r\nfar_el1=0x0000000080000000\r\nelr_el1=0x0000000040080000\r\nspsr_el1=0x00000000000003c5\r\ndecoded: translation fault\r\ntest enabled: resume at next instruction\r\n"
    );
}

#[test]
fn report_without_tests_or_fault() {
    let f = frame(9, 0x5600_0000, 0x10);
    let report = exception_report(&f, false);
    assert_eq!(
        String::from_utf8(report).unwrap(),
        "\r\nexception: lower_el_a64_irq\r\nesr_el1=0x0000000056000000\r\nfar_el1=0x0000000080000000\r\nelr_el1=0x0000000000000010\r\nspsr_el1=0x00000000000003c5\r\n"
    );
}

#[test]
fn report_of_an_unresumed_translation_fault() {
    let f = frame(5, 0x9600_0005, 0x10);
    let text = String::from_utf8(exception_report(&f, false)).unwrap();
    assert!(text.starts_with("\r\nexception: current_el_spx_irq\r\n"));
    assert!(text.ends_with("spsr_el1=0x00000000000003c5\r\ndecoded: translation fault\r\n"));
}
