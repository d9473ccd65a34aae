//! The typed failures a cycle can report, one input for each variant.

use chip_8::Error;
use chip_8::Processor;

#[test]
fn unknown_opcode_in_the_alu_family() {
    let mut p = Processor::with_file(&[0x80, 0x09]).unwrap();
    assert_eq!(
        p.run_cycle(),
        Err(Error::UnknownOpcode { pc: 0x202, opcode: 0x8009 })
    );
    // The fetch advance stands; nothing else changed, and the timers did
    // not tick.
    assert_eq!(p.program_counter, 0x202);
    assert!(p.registers.iter().all(|&v| v == 0));
}

#[test]
fn unknown_opcode_in_the_key_family() {
    let mut p = Processor::with_file(&[0xE0, 0x00]).unwrap();
    assert_eq!(
        p.run_cycle(),
        Err(Error::UnknownOpcode { pc: 0x202, opcode: 0xE000 })
    );
}

#[test]
fn unknown_opcode_in_the_misc_family() {
    let mut p = Processor::with_file(&[0xF0, 0xFF]).unwrap();
    assert_eq!(
        p.run_cycle(),
        Err(Error::UnknownOpcode { pc: 0x202, opcode: 0xF0FF })
    );
}

#[test]
fn failed_cycle_does_not_tick_timers() {
    let mut p = Processor::with_file(&[0x80, 0x09]).unwrap();
    p.delay_timer = 5;
    assert!(p.run_cycle().is_err());
    assert_eq!(p.delay_timer, 5);
}

#[test]
fn call_with_a_full_stack_overflows() {
    let mut p = Processor::with_file(&[0x23, 0x00]).unwrap();
    p.stack_pointer = 16;
    assert_eq!(p.run_cycle(), Err(Error::StackOverflow));
    assert_eq!(p.program_counter, 0x202);
    assert_eq!(p.stack_pointer, 16);
}

#[test]
fn return_with_an_empty_stack_underflows() {
    let mut p = Processor::with_file(&[0x00, 0xEE]).unwrap();
    assert_eq!(p.run_cycle(), Err(Error::StackUnderflow));
    assert_eq!(p.program_counter, 0x202);
}

#[test]
fn fetch_past_the_end_of_memory() {
    let mut p = Processor::new();
    p.program_counter = 4095;
    assert_eq!(p.run_cycle(), Err(Error::MemoryOutOfBounds));
    // No opcode could be fetched, so not even the fetch advance happened.
    assert_eq!(p.program_counter, 4095);
}

#[test]
fn bcd_past_the_end_of_memory() {
    let mut p = Processor::with_file(&[0xF0, 0x33]).unwrap();
    p.index = 4094;
    assert_eq!(p.run_cycle(), Err(Error::MemoryOutOfBounds));
    assert_eq!(p.memory[4094], 0);
}

#[test]
fn sprite_read_past_the_end_of_memory() {
    let mut p = Processor::with_file(&[0xD0, 0x0F]).unwrap();
    p.index = 4090;
    assert_eq!(p.run_cycle(), Err(Error::MemoryOutOfBounds));
    assert!(p.display.iter().all(|&px| !px));
    assert_eq!(p.registers[0xF], 0);
}

#[test]
fn block_store_past_the_end_of_memory() {
    let mut p = Processor::with_file(&[0xFF, 0x55]).unwrap();
    p.index = 4081;
    assert_eq!(p.run_cycle(), Err(Error::MemoryOutOfBounds));
    // One slot earlier the sixteen registers fit exactly.
    let mut q = Processor::with_file(&[0xFF, 0x55]).unwrap();
    q.index = 4080;
    assert_eq!(q.run_cycle(), Ok(()));
}

#[test]
fn block_load_past_the_end_of_memory() {
    let mut p = Processor::with_file(&[0xFF, 0x65]).unwrap();
    p.index = 4081;
    assert_eq!(p.run_cycle(), Err(Error::MemoryOutOfBounds));
}

#[test]
fn key_skip_with_a_register_naming_no_key() {
    let mut p = Processor::with_file(&[0x60, 0x10, 0xE0, 0x9E]).unwrap();
    assert_eq!(p.run_cycle(), Ok(()));
    assert_eq!(p.run_cycle(), Err(Error::InvalidKey));
    let mut q = Processor::with_file(&[0x60, 0x10, 0xE0, 0xA1]).unwrap();
    assert_eq!(q.run_cycle(), Ok(()));
    assert_eq!(q.run_cycle(), Err(Error::InvalidKey));
}
