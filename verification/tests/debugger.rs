use balancebeam::address::{parse_address, parse_decimal};
use balancebeam::debugger::{
    announce, break_target, breakpoint_address, note_breakpoint, plan, resolve, survives,
    BreakTarget, Resolution, Step,
};
use balancebeam::debugger_command::DebuggerCommand;
use balancebeam::inferior::{after_single_step, breakpoint_behind, AfterStep, Status};
use balancebeam::word::{
    align_addr_to_word, byte_offset, read_byte, replace_byte, write_byte, BREAKPOINT_BYTE,
    WORD_BYTES,
};
use std::collections::HashMap;

fn command(line: &str) -> Option<DebuggerCommand> {
    let tokens: Vec<&str> = line.split_whitespace().collect();
    DebuggerCommand::from_tokens(&tokens)
}

#[test]
fn quit_continue_and_backtrace_have_short_forms() {
    for line in ["q", "quit"] {
        assert!(matches!(command(line), Some(DebuggerCommand::Quit)));
    }
    for line in ["c", "cont", "continue"] {
        assert!(matches!(command(line), Some(DebuggerCommand::Continue)));
    }
    for line in ["bt", "back", "backtrace"] {
        assert!(matches!(command(line), Some(DebuggerCommand::Backtrace)));
    }
}

#[test]
fn run_takes_the_other_words_as_arguments() {
    match command("run one two three") {
        Some(DebuggerCommand::Run(args)) => assert_eq!(args, vec!["one", "two", "three"]),
        _ => panic!("not a run command"),
    }
    match command("r") {
        Some(DebuggerCommand::Run(args)) => assert!(args.is_empty()),
        _ => panic!("not a run command"),
    }
}

#[test]
fn break_takes_a_starred_address() {
    match command("b *0x401136") {
        Some(DebuggerCommand::Breakpoint(address)) => assert_eq!(address, "0x401136"),
        _ => panic!("not a breakpoint command"),
    }
    match command("break *") {
        Some(DebuggerCommand::Breakpoint(address)) => assert_eq!(address, ""),
        _ => panic!("not a breakpoint command"),
    }
    assert!(command("break main").is_none());
    assert!(command("b 12").is_none());
}

#[test]
fn unknown_words_are_no_command() {
    assert!(command("quitt").is_none());
    assert!(command("Q").is_none());
    assert!(command("step").is_none());
    assert!(command("breakpoint *0x1").is_none());
}

#[test]
fn addresses_are_read_in_hexadecimal() {
    assert_eq!(parse_address("0x401136"), Some(0x401136));
    assert_eq!(parse_address("0X1f"), Some(31));
    assert_eq!(parse_address("ff"), Some(255));
    assert_eq!(parse_address("DeadBeef"), Some(0xdeadbeef));
    assert_eq!(parse_address("0"), Some(0));
    assert_eq!(parse_address("0x0"), Some(0));
    assert_eq!(parse_address("000010"), Some(16));
}

#[test]
fn addresses_that_are_none() {
    assert_eq!(parse_address(""), None);
    assert_eq!(parse_address("0x"), None);
    assert_eq!(parse_address("+"), None);
    assert_eq!(parse_address("x10"), None);
    assert_eq!(parse_address("12g"), None);
    assert_eq!(parse_address("-1"), None);
    assert_eq!(parse_address(" 1"), None);
    assert_eq!(parse_address("1_0"), None);
    assert_eq!(parse_address("0x0x1"), None);
    assert_eq!(parse_address("++1"), None);
}

#[test]
fn addresses_at_the_edge_of_a_word() {
    let most = format!("{:x}", usize::MAX);
    assert_eq!(parse_address(&most), Some(usize::MAX));
    assert_eq!(parse_address(&format!("0x{}", most)), Some(usize::MAX));
    assert_eq!(parse_address(&format!("{}0", most)), None);
    assert_eq!(parse_address(&format!("1{}", most)), None);
    assert_eq!(parse_address(&format!("0{}", most)), Some(usize::MAX));
}

#[test]
fn addresses_agree_with_the_standard_reading() {
    let samples = [
        "", "0", "7", "+7", "+", "0x", "0x+9", "abc", "ABC", "0xabc", "0Xabc", "xyz", "12 ",
        "0x12345678", "ffffffffffffffff", "10000000000000000", "fffffffffffffffff", "0x-1", "é1",
        "1é", "0x１", "00000000000000000000001",
    ];
    for sample in samples {
        let body = if sample.to_lowercase().starts_with("0x") {
            &sample[2..]
        } else {
            sample
        };
        assert_eq!(parse_address(sample), usize::from_str_radix(body, 16).ok(), "{}", sample);
    }
}

#[test]
fn words_are_aligned_downwards() {
    assert_eq!(WORD_BYTES, 8);
    assert_eq!(align_addr_to_word(0), 0);
    assert_eq!(align_addr_to_word(7), 0);
    assert_eq!(align_addr_to_word(8), 8);
    assert_eq!(align_addr_to_word(0x401136), 0x401130);
    assert_eq!(align_addr_to_word(usize::MAX), usize::MAX - 7);
    assert_eq!(byte_offset(0x401136), 6);
    assert_eq!(byte_offset(16), 0);
}

#[test]
fn one_byte_of_a_word_is_replaced() {
    let word: u64 = 0x1122334455667788;
    assert_eq!(read_byte(word, 0), 0x88);
    assert_eq!(read_byte(word, 3), 0x55);
    assert_eq!(read_byte(word, 7), 0x11);
    assert_eq!(write_byte(word, 0, BREAKPOINT_BYTE), 0x11223344556677cc);
    assert_eq!(write_byte(word, 6, BREAKPOINT_BYTE), 0x11cc334455667788);
    assert_eq!(write_byte(word, 7, 0), 0x0022334455667788);
    let patched = write_byte(word, 2, BREAKPOINT_BYTE);
    assert_eq!(read_byte(patched, 2), 0xcc);
    assert_eq!(write_byte(patched, 2, read_byte(word, 2)), word);
}

#[test]
fn byte_is_replaced_at_an_address() {
    let word: u64 = 0x1122334455667788;
    assert_eq!(replace_byte(word, 0x401136, 0xcc), (0x22, 0x11cc334455667788));
    assert_eq!(replace_byte(word, 0x401130, 0xcc), (0x88, 0x11223344556677cc));
}

#[test]
fn breakpoint_is_found_one_byte_behind() {
    let mut breakpoints: HashMap<usize, u8> = HashMap::new();
    breakpoints.insert(0x401136, 0x55);
    let hit = breakpoint_behind(&breakpoints, 0x401137).unwrap();
    assert_eq!((hit.address, hit.saved), (0x401136, 0x55));
    assert!(breakpoint_behind(&breakpoints, 0x401136).is_none());
    assert!(breakpoint_behind(&breakpoints, 0x401138).is_none());
    assert!(breakpoint_behind(&breakpoints, 1).is_none());
}

#[test]
fn a_stopped_process_is_resumed_after_the_step() {
    assert_eq!(after_single_step(Status::Stopped(5, 0x401137)), AfterStep::RearmAndResume);
    assert_eq!(after_single_step(Status::Exited(3)), AfterStep::Report(Status::Exited(3)));
    assert_eq!(after_single_step(Status::Signaled(9)), AfterStep::Report(Status::Signaled(9)));
}

#[test]
fn decimal_numbers_are_read() {
    assert_eq!(parse_decimal("0"), Some(0));
    assert_eq!(parse_decimal("15"), Some(15));
    assert_eq!(parse_decimal("+15"), Some(15));
    assert_eq!(parse_decimal("0015"), Some(15));
    assert_eq!(parse_decimal(""), None);
    assert_eq!(parse_decimal("1f"), None);
    assert_eq!(parse_decimal("-3"), None);
    assert_eq!(parse_decimal("main"), None);
    assert_eq!(parse_decimal(&usize::MAX.to_string()), Some(usize::MAX));
    assert_eq!(parse_decimal(&format!("{}0", usize::MAX)), None);
    for sample in ["", "7", "+", "+7", "18446744073709551615", "18446744073709551616", "1 ", "a"] {
        assert_eq!(parse_decimal(sample), usize::from_str_radix(sample, 10).ok(), "{}", sample);
    }
}

#[test]
fn commands_lead_to_steps() {
    let run = DebuggerCommand::Run(vec!["x".to_string()]);
    assert_eq!(plan(&run, false), Step::Start { kill_first: false });
    assert_eq!(plan(&run, true), Step::Start { kill_first: true });
    assert_eq!(plan(&DebuggerCommand::Continue, true), Step::Resume);
    assert_eq!(plan(&DebuggerCommand::Continue, false), Step::NotRunning);
    assert_eq!(plan(&DebuggerCommand::Backtrace, true), Step::Backtrace);
    assert_eq!(plan(&DebuggerCommand::Backtrace, false), Step::NotRunning);
    let breakpoint = DebuggerCommand::Breakpoint("0x10".to_string());
    assert_eq!(plan(&breakpoint, false), Step::SetBreakpoint);
    assert_eq!(plan(&breakpoint, true), Step::SetBreakpoint);
    assert_eq!(plan(&DebuggerCommand::Quit, true), Step::Quit { kill_first: true });
    assert_eq!(plan(&DebuggerCommand::Quit, false), Step::Quit { kill_first: false });
}

#[test]
fn a_process_is_gone_once_it_has_exited() {
    assert!(!survives(Status::Exited(0)));
    assert!(survives(Status::Signaled(11)));
    assert!(survives(Status::Stopped(5, 0x401000)));
}

#[test]
fn breakpoint_targets_are_told_apart() {
    assert_eq!(break_target("*0x401136"), BreakTarget::Address(Some(0x401136)));
    assert_eq!(break_target("*401136"), BreakTarget::Address(Some(0x401136)));
    assert_eq!(break_target("*main"), BreakTarget::Address(None));
    assert_eq!(break_target("*"), BreakTarget::Address(None));
    assert_eq!(break_target("15"), BreakTarget::Line(15));
    assert_eq!(break_target("main"), BreakTarget::Function);
    assert_eq!(break_target("0x401136"), BreakTarget::Function);
    assert_eq!(break_target(""), BreakTarget::Function);
}

#[test]
fn breakpoint_targets_are_resolved() {
    assert_eq!(resolve(BreakTarget::Address(Some(16)), None), Resolution::At(16));
    assert_eq!(resolve(BreakTarget::Address(None), None), Resolution::InvalidAddress);
    assert_eq!(resolve(BreakTarget::Line(3), Some(64)), Resolution::At(64));
    assert_eq!(resolve(BreakTarget::Line(3), None), Resolution::InvalidLine);
    assert_eq!(resolve(BreakTarget::Function, Some(128)), Resolution::At(128));
    assert_eq!(resolve(BreakTarget::Function, None), Resolution::UnknownFunction);
    assert_eq!(breakpoint_address(Resolution::At(16)), Some(16));
    assert_eq!(breakpoint_address(Resolution::InvalidAddress), Some(0));
    assert_eq!(breakpoint_address(Resolution::InvalidLine), None);
    assert_eq!(breakpoint_address(Resolution::UnknownFunction), None);
}

#[test]
fn breakpoints_are_announced_once_and_noted() {
    let mut breakpoints: HashMap<usize, u8> = HashMap::new();
    assert_eq!(announce(&breakpoints, 0x10), Some(0));
    assert!(note_breakpoint(&mut breakpoints, 0x10, false, None));
    assert_eq!(breakpoints.get(&0x10), Some(&0));
    assert_eq!(announce(&breakpoints, 0x10), None);
    assert_eq!(announce(&breakpoints, 0x20), Some(1));
    assert!(note_breakpoint(&mut breakpoints, 0x20, true, Some(0x55)));
    assert_eq!(breakpoints.get(&0x20), Some(&0x55));
    assert!(!note_breakpoint(&mut breakpoints, 0x30, true, None));
    assert_eq!(breakpoints.len(), 2);
    assert!(note_breakpoint(&mut breakpoints, 0x20, false, Some(0x66)));
    assert_eq!(breakpoints.get(&0x20), Some(&0));
}
