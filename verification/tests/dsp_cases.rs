use lazuli::dsp::Reg;
use lazuli::dsp_cases::{parse_code, regs, TestCase, TestFile};
use lazuli::dsp_exec::convert_to_dsp_words;
use lazuli::dsp_ins::Ins;

fn numbered() -> [u16; 31] {
    let mut arr = [0u16; 31];
    for (i, v) in arr.iter_mut().enumerate() {
        *v = 0x1000 + i as u16;
    }
    arr
}

#[test]
fn regs_skips_configuration_and_loop_stack() {
    let r = regs(numbered());
    assert_eq!(r.get(Reg::Addr0), 0x1000);
    assert_eq!(r.get(Reg::Wrap3), 0x100B);
    assert_eq!(r.get(Reg::CallStack), 0x100C);
    assert_eq!(r.get(Reg::DataStack), 0x100D);
    // The loop stack is not written; the value at its place is ignored.
    assert_eq!(r.get(Reg::LoopStack), 0);
    assert_eq!(r.get(Reg::LoopCount), 0x100F);
    assert_eq!(r.get(Reg::Acc40High0), 0x0010);
    assert_eq!(r.get(Reg::Config), 0);
    // Value 18 of the list goes to the status register, with bit 8 cleared.
    assert_eq!(r.get(Reg::Status), 0x1012 & !0x100);
    assert_eq!(r.get(Reg::ProdLow), 0x1013);
    assert_eq!(r.get(Reg::Acc32Low0), 0x1017);
    assert_eq!(r.get(Reg::Acc32High1), 0x101A);
    assert_eq!(r.get(Reg::Acc40Low1), 0x101C);
    assert_eq!(r.acc40[1].mid, 0x101E);
}

#[test]
fn test_case_registers() {
    let case = TestCase { instructions: vec![0x0021], expected: numbered(), initial: [0u16; 31] };
    assert_eq!(case.expected_regs().get(Reg::Index1), 0x1005);
    assert_eq!(case.initial_regs().get(Reg::Index1), 0);
    assert_eq!(case.initial_regs().get(Reg::Wrap0), 0);
}

#[test]
fn parse_code_takes_second_words() {
    // lri $AR0, #0x1234; nop; jmp 0x0010; halt
    let code = [0x0080, 0x1234, 0x0000, 0x029F, 0x0010, 0x0021];
    assert_eq!(
        parse_code(&code),
        vec![Ins::with_extra(0x0080, 0x1234), Ins::new(0x0000), Ins::with_extra(0x029F, 0x0010), Ins::new(0x0021)]
    );
    assert_eq!(parse_code(&[]), vec![]);
}

fn case_bytes(code: [u16; 2], expected: u16, initial: u16) -> Vec<u8> {
    let mut b = Vec::new();
    for w in code {
        b.extend_from_slice(&w.to_le_bytes());
    }
    for _ in 0..31 {
        b.extend_from_slice(&expected.to_le_bytes());
    }
    for _ in 0..31 {
        b.extend_from_slice(&initial.to_le_bytes());
    }
    b
}

#[test]
fn test_file_reads_whole_cases() {
    let mut file = vec![4u8, 0];
    file.extend(case_bytes([0x0021, 0x0000], 7, 9));
    file.extend(case_bytes([0x8100, 0x0021], 0xABCD, 1));
    file.extend([1, 2, 3, 4, 5]);
    let parsed = TestFile::parse(&file).expect("a valid file");
    assert_eq!(parsed.cases.len(), 2);
    assert_eq!(parsed.cases[0].instructions, vec![0x0021, 0x0000]);
    assert_eq!(parsed.cases[0].expected, [7u16; 31]);
    assert_eq!(parsed.cases[0].initial, [9u16; 31]);
    assert_eq!(parsed.cases[1].instructions, vec![0x8100, 0x0021]);
    assert_eq!(parsed.cases[1].expected, [0xABCDu16; 31]);
}

#[test]
fn test_file_refuses_odd_length_and_short_files() {
    assert_eq!(TestFile::parse(&[3, 0]), None);
    assert_eq!(TestFile::parse(&[4]), None);
    assert_eq!(TestFile::parse(&[4, 0]), Some(TestFile { cases: vec![] }));
}

#[test]
fn rom_words_are_big_endian() {
    assert_eq!(convert_to_dsp_words(&[0x12, 0x34, 0xAB, 0xCD], 2), vec![0x1234, 0xABCD]);
    assert_eq!(convert_to_dsp_words(&[0x12, 0x34, 0xAB], 1), vec![0x1234]);
}
