use windbgr_mcp::cdb::prompt::{clean_command_output, find_prompt, rfind_prompt};

#[test]
fn detects_basic_prompt() {
    let tail = "eax=1234\nebx=5678\n0:000> ";
    assert!(find_prompt(tail).is_some());
}

#[test]
fn detects_multi_digit_prompt() {
    let tail = "output\n12:1f:42> ";
    assert!(find_prompt(tail).is_some());
}

#[test]
fn no_prompt_when_missing() {
    let tail = "just some output\nno prompt";
    assert!(find_prompt(tail).is_none());
}

#[test]
fn clean_command_output_strips_prompt_and_echo() {
    let raw = "r\neax=00000000 ebx=00000000\n0:000> ";
    let out = clean_command_output(raw, "r");
    assert!(out.contains("eax"));
    assert!(!out.contains("0:000>"));
}

#[test]
fn detects_back_to_back_prompts() {
    let tail = "ntdll!DbgBreakPoint\n0:023> 0:023> ";
    assert!(
        find_prompt(tail).is_some(),
        "must detect prompt in back-to-back scenario"
    );
}

#[test]
fn detects_prompt_after_crlf() {
    let tail = "some output\r\n0:000> ";
    assert!(find_prompt(tail).is_some());
}

#[test]
fn detects_standalone_prompt() {
    let tail = "0:000> ";
    assert!(find_prompt(tail).is_some());
}

#[test]
fn rfind_prompt_on_bare_prompt() {
    let raw = "0:023> ";
    assert_eq!(rfind_prompt(raw), Some(0));
}

#[test]
fn rfind_prompt_on_back_to_back() {
    let raw = "0:023> 0:023> ";
    let pos = rfind_prompt(raw).unwrap();
    assert_eq!(&raw[pos..pos + 1], ">");
}

#[test]
fn regression_smsecurityexchangeinfo_scenario() {
    let tail = [
        "(18cc.2a5c): Break instruction exception - code 80000003 (first chance)\n",
        "ntdll!DbgBreakPoint:\n",
        "00007ff8`e5d94af0 cc              int     3\n",
        "0:023> 00007ff8`41422c78 someDll!func1 ",
        "(unsigned char __cdecl func1(struct tagDATA *,",
        "void *,unsigned int))\n",
        "0:023> 0:023> ",
    ]
    .concat();
    assert!(find_prompt(&tail).is_some());
}

#[test]
fn find_prompt_reports_byte_offsets() {
    let m = find_prompt("out\n0:000> ").unwrap();
    assert_eq!((m.start, m.end), (3, 11));
    // A two-byte character before the prompt shifts the byte offsets.
    let m = find_prompt("\u{e9}\n0:000> ").unwrap();
    assert_eq!((m.start, m.end), (2, 10));
}

#[test]
fn prompt_with_processor_suffix_is_detected() {
    assert!(find_prompt("x\n0:000:x86> ").is_some());
    assert!(find_prompt("x\n1:1:012> ").is_some());
}

#[test]
fn prompt_must_end_the_text() {
    assert!(find_prompt("0:000> r\n").is_none());
    assert!(find_prompt("0:000> \t \n").is_some());
}

#[test]
fn prompt_needs_a_separator_before_it() {
    // Mid-line digits are not a prompt start.
    assert!(find_prompt("abc0:000> ").is_none());
    assert!(find_prompt("abc> 0:000> ").is_some());
}

#[test]
fn unicode_decimal_digits_count_as_prompt_digits() {
    // U+0661 ARABIC-INDIC DIGIT ONE is in \p{Nd}.
    assert!(find_prompt("\n\u{661}:000> ").is_some());
    // U+00B2 SUPERSCRIPT TWO is numeric but not a decimal digit.
    assert!(find_prompt("\n\u{b2}:000> ").is_none());
}

#[test]
fn clean_command_output_exact_text() {
    assert_eq!(
        clean_command_output("r\neax=1 ebx=2\n0:000> ", "r"),
        "eax=1 ebx=2"
    );
    assert_eq!(
        clean_command_output("\r\nlm\r\nstart end\r\n0:000> ", "lm"),
        "start end"
    );
}

#[test]
fn clean_command_output_without_prompt_drops_last_line() {
    assert_eq!(clean_command_output("k\nframe0\npartial", "k"), "frame0");
}

#[test]
fn clean_command_output_keeps_text_without_echo() {
    assert_eq!(clean_command_output("\nhello\n0:000> ", "bp x"), "\nhello");
}

#[test]
fn clean_command_output_of_back_to_back_prompts_is_empty() {
    assert_eq!(clean_command_output("0:023> 0:023> ", "bp a"), "0:023");
}

#[test]
fn prompt_after_any_output_and_separator_is_found() {
    assert_eq!(find_prompt("garbage ! 0:1:2\r\n1:1:0ff> ").unwrap().start, 15);
    assert_eq!(find_prompt("x> 3:0a>").unwrap().start, 1);
    assert!(find_prompt("no angle bracket 0:000 here\n0:000 ").is_none());
}

#[test]
fn crlf_echo_is_stripped() {
    assert_eq!(clean_command_output("lm\r\nstart end\r\n0:000> ", "lm"), "start end");
    assert_eq!(clean_command_output("\r\nk\nframe 0\n0:000> ", "k"), "frame 0");
}

#[test]
fn output_starting_with_the_command_letters_is_not_an_echo() {
    assert_eq!(clean_command_output("rax=1 rbx=2\n0:000> ", "r"), "rax=1 rbx=2");
    assert_eq!(clean_command_output("\ng\n0:000> ", "g"), "");
    assert_eq!(clean_command_output("g\n0:000> ", "g"), "");
    assert_eq!(clean_command_output("lmv\n0:000> ", "lm"), "lmv");
}
