use bootloader_api::info::{MemoryRegion, MemoryRegions};
use bootloader_api::BootInfo;
use simpleos::fault::{FaultRecord, Location};
use simpleos::format::{Arg, Number, Value};
use simpleos::kernel::{Kernel, RunState, KERNEL_CONTEXT};

fn boot_info() -> BootInfo {
    let regions: &'static mut [MemoryRegion] = Box::leak(Vec::new().into_boxed_slice());
    BootInfo::new(MemoryRegions::from(regions))
}

fn here() -> Location {
    Location::new("tests.rs", 1, 1)
}

fn boom() -> FaultRecord {
    FaultRecord::new("boom", Location::new("k.rs", 1, 2))
}

const BOOM: &str = "KERNEL PANIC\nFaultRecord {\n    message: boom,\n    location: k.rs:1:2,\n}\n";

#[test]
fn new_kernel_waits_to_be_entered() {
    let mut kernel = Kernel::new();
    assert_eq!(kernel.state(), RunState::Booting);
    assert!(!kernel.is_halted());
    assert_eq!(kernel.take_output(), Vec::<u8>::new());
    assert_eq!(KERNEL_CONTEXT, 0);
}

#[test]
fn entry_shows_the_demonstration_and_halts() {
    let mut kernel = Kernel::new();
    kernel.simpleos_main(&boot_info());
    assert_eq!(kernel.state(), RunState::Halted);
    assert!(kernel.is_halted());
    assert_eq!(
        String::from_utf8(kernel.take_output()).unwrap(),
        "Printing integer '1234' and array of floats [2.6, NaN, -10.3] with no newline. \
         Test printing slice 'a slice' with a newline.\n\
         Test printing slice 'a slice' with a newline.\n\
         \n\
         \n\
         Two blank lines should be printed above this line\n"
    );
}

#[test]
fn entry_does_not_depend_on_the_boot_information() {
    let mut plain = Kernel::new();
    plain.simpleos_main(&boot_info());
    let mut info = boot_info();
    info.kernel_addr = 0xffff_8000_0000_0000;
    info.kernel_len = 4096;
    info.ramdisk_len = 7;
    let mut other = Kernel::new();
    other.simpleos_main(&info);
    assert_eq!(plain.take_output(), other.take_output());
    assert_eq!(other.state(), RunState::Halted);
}

#[test]
fn entry_takes_effect_once() {
    let mut kernel = Kernel::new();
    kernel.simpleos_main(&boot_info());
    let first = kernel.take_output();
    assert!(!first.is_empty());
    kernel.simpleos_main(&boot_info());
    kernel.simpleos_main(&boot_info());
    assert_eq!(kernel.take_output(), Vec::<u8>::new());
    assert_eq!(kernel.state(), RunState::Halted);
}

#[test]
fn entry_after_enter_does_nothing() {
    let mut kernel = Kernel::new();
    assert!(kernel.enter());
    assert_eq!(kernel.state(), RunState::Running);
    assert!(!kernel.enter());
    kernel.simpleos_main(&boot_info());
    assert_eq!(kernel.state(), RunState::Running);
    assert_eq!(kernel.take_output(), Vec::<u8>::new());
}

#[test]
fn running_kernel_prints() {
    let mut kernel = Kernel::new();
    assert!(kernel.enter());
    let args = vec![Arg::positional(Value::Text("x".to_string()))];
    kernel.println("{}", &args, &here());
    kernel.println("", &vec![], &here());
    kernel.print("n = {n}", &vec![Arg::named("n".to_string(), Value::Number(Number::Int(7)))], &here());
    assert_eq!(kernel.state(), RunState::Running);
    assert_eq!(kernel.take_output(), b"x\n\nn = 7".to_vec());
}

#[test]
fn kernel_prints_nothing_before_it_is_entered() {
    let mut kernel = Kernel::new();
    kernel.print("early", &vec![], &here());
    kernel.println("{", &vec![], &here());
    assert_eq!(kernel.state(), RunState::Booting);
    assert_eq!(kernel.take_output(), Vec::<u8>::new());
}

#[test]
fn fault_reports_and_halts() {
    let mut kernel = Kernel::new();
    assert!(kernel.enter());
    kernel.print("before|", &vec![], &here());
    kernel.panic(&boom());
    assert_eq!(kernel.state(), RunState::Halted);
    assert_eq!(String::from_utf8(kernel.take_output()).unwrap(), format!("before|{}", BOOM));
}

#[test]
fn fault_output_begins_with_the_header() {
    let mut kernel = Kernel::new();
    assert!(kernel.enter());
    kernel.panic(&boom());
    let out = kernel.take_output();
    assert!(out.starts_with(b"KERNEL PANIC"));
    assert!(out.len() > b"KERNEL PANIC\n".len());
}

#[test]
fn nothing_is_written_after_the_halt() {
    let mut kernel = Kernel::new();
    assert!(kernel.enter());
    kernel.panic(&boom());
    assert_eq!(String::from_utf8(kernel.take_output()).unwrap(), BOOM);
    kernel.print("more", &vec![], &here());
    kernel.println("more", &vec![], &here());
    kernel.println("{", &vec![], &here());
    kernel.panic(&boom());
    kernel.panic(&FaultRecord::new("again", here()));
    kernel.simpleos_main(&boot_info());
    assert!(!kernel.enter());
    kernel.halt();
    assert_eq!(kernel.state(), RunState::Halted);
    assert_eq!(kernel.take_output(), Vec::<u8>::new());
}

#[test]
fn fault_before_entry_is_reported_too() {
    let mut kernel = Kernel::new();
    kernel.panic(&boom());
    assert_eq!(kernel.state(), RunState::Halted);
    assert_eq!(String::from_utf8(kernel.take_output()).unwrap(), BOOM);
    kernel.simpleos_main(&boot_info());
    assert_eq!(kernel.take_output(), Vec::<u8>::new());
}

#[test]
fn template_that_cannot_be_rendered_is_a_fault() {
    let mut kernel = Kernel::new();
    assert!(kernel.enter());
    kernel.print("ok ", &vec![], &here());
    kernel.print("lost {} text", &vec![], &Location::new("demo.rs", 3, 9));
    assert_eq!(kernel.state(), RunState::Halted);
    assert_eq!(
        String::from_utf8(kernel.take_output()).unwrap(),
        "ok KERNEL PANIC\nFaultRecord {\n    message: template has more holes than arguments,\n    \
         location: demo.rs:3:9,\n}\n"
    );
    kernel.print("after", &vec![], &here());
    assert_eq!(kernel.take_output(), Vec::<u8>::new());
}

#[test]
fn halt_is_silent_and_final() {
    let mut kernel = Kernel::new();
    assert!(kernel.enter());
    kernel.print("a", &vec![], &here());
    kernel.halt();
    kernel.print("b", &vec![], &here());
    assert!(kernel.is_halted());
    assert_eq!(kernel.take_output(), b"a".to_vec());
}

#[test]
fn output_is_handed_out_in_order_and_once() {
    let mut kernel = Kernel::new();
    assert!(kernel.enter());
    kernel.print("1", &vec![], &here());
    kernel.print("2", &vec![], &here());
    assert_eq!(kernel.take_output(), b"12".to_vec());
    assert_eq!(kernel.take_output(), Vec::<u8>::new());
    kernel.print("3", &vec![], &here());
    assert_eq!(kernel.take_output(), b"3".to_vec());
}
