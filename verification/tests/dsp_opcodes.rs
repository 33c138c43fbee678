use lazuli::dsp_ins::{ExtensionOpcode, Opcode};

#[test]
fn unique_opcodes() {
    for value in 0..u16::MAX {
        let mut hit = None;
        for opcode in Opcode::variants() {
            if opcode.info().is_some_and(|i| i.matches(value)) {
                if let Some(hit) = hit {
                    panic!("opcodes {hit:?} and {opcode:?} are valid for {value:016b}");
                }

                hit = Some(opcode);
            }
        }
    }
}

#[test]
fn unique_extension_opcodes() {
    for value in 0..u16::MAX {
        let mut hit = None;
        for opcode in ExtensionOpcode::variants() {
            if opcode.info().is_some_and(|i| i.matches(value)) {
                if let Some(hit) = hit {
                    panic!("extension opcodes {hit:?} and {opcode:?} are valid for {value:016b}");
                }

                hit = Some(opcode);
            }
        }
    }
}

#[test]
fn ins_unique_opcodes() {
    for value in 0..u16::MAX {
        let mut hit = None;
        for opcode in Opcode::variants() {
            if opcode.info().is_some_and(|i| i.matches(value)) {
                if let Some(hit) = hit {
                    panic!("opcodes {hit:?} and {opcode:?} are valid for {value:016b}");
                }

                hit = Some(opcode);
            }
        }
    }
}

#[test]
fn ins_unique_extension_opcodes() {
    for value in 0..u16::MAX {
        let mut hit = None;
        for opcode in ExtensionOpcode::variants() {
            if opcode.info().is_some_and(|i| i.matches(value)) {
                if let Some(hit) = hit {
                    panic!("extension opcodes {hit:?} and {opcode:?} are valid for {value:016b}");
                }

                hit = Some(opcode);
            }
        }
    }
}
