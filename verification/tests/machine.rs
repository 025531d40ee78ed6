//! Runs the emitted assembly on a small interpreter of the target
//! machine and checks its memory effects.
use std::collections::HashMap;

use vm_translator::code_writer::{translate, CodeWriterClass};
use vm_translator::parser::ParserClass;

enum Line {
    At(String),
    Compute(String, String, String),
}

struct Machine {
    a: i64,
    d: i64,
    ram: Vec<i64>,
    pc: usize,
    prog: Vec<Line>,
    symbols: HashMap<String, i64>,
}

fn builtin_symbols() -> HashMap<String, i64> {
    let mut s = HashMap::new();
    s.insert("SP".to_string(), 0);
    s.insert("LCL".to_string(), 1);
    s.insert("ARG".to_string(), 2);
    s.insert("THIS".to_string(), 3);
    s.insert("THAT".to_string(), 4);
    s.insert("R13".to_string(), 13);
    s.insert("R14".to_string(), 14);
    s
}

fn assemble(text: &str) -> (Vec<Line>, HashMap<String, i64>) {
    let mut symbols = builtin_symbols();
    let mut raw: Vec<&str> = Vec::new();
    for line in text.lines() {
        let line = line.trim();
        if line.is_empty() || line.starts_with("//") {
            continue;
        }
        if line.starts_with('(') {
            let name = &line[1..line.len() - 1];
            symbols.insert(name.to_string(), raw.len() as i64);
        } else {
            raw.push(line);
        }
    }
    let mut next_var: i64 = 16;
    let mut prog = Vec::new();
    for line in raw {
        if let Some(sym) = line.strip_prefix('@') {
            if sym.chars().all(|c| c.is_ascii_digit()) {
                prog.push(Line::At(sym.to_string()));
            } else {
                if !symbols.contains_key(sym) {
                    symbols.insert(sym.to_string(), next_var);
                    next_var += 1;
                }
                prog.push(Line::At(sym.to_string()));
            }
        } else if let Some(eq_pos) = line.find('=') {
            let dest = &line[..eq_pos];
            let comp = &line[eq_pos + 1..];
            prog.push(Line::Compute(dest.to_string(), comp.to_string(), String::new()));
        } else if let Some(semi_pos) = line.find(';') {
            let comp = &line[..semi_pos];
            let jump = &line[semi_pos + 1..];
            prog.push(Line::Compute(String::new(), comp.to_string(), jump.to_string()));
        } else {
            panic!("unrecognized emitted line: {line}");
        }
    }
    (prog, symbols)
}

impl Machine {
    fn load(text: &str) -> Machine {
        let (prog, symbols) = assemble(text);
        Machine { a: 0, d: 0, ram: vec![0; 32768], pc: 0, prog, symbols }
    }

    fn comp(&self, comp: &str) -> i64 {
        let m = self.ram[self.a as usize];
        match comp {
            "0" => 0,
            "-1" => -1,
            "A" => self.a,
            "D" => self.d,
            "M" => m,
            "M+1" => m + 1,
            "M-1" => m - 1,
            "M+D" | "D+M" => m + self.d,
            "M-D" => m - self.d,
            "D-M" => self.d - m,
            "D-A" => self.d - self.a,
            "D+1" => self.d + 1,
            "D-1" => self.d - 1,
            "A+1" => self.a + 1,
            "A-1" => self.a - 1,
            "M&D" | "D&M" => m & self.d,
            "M|D" | "D|M" => m | self.d,
            "!M" => !m & 0xffff,
            "!D" => !self.d & 0xffff,
            "-M" => -m,
            "-D" => -self.d,
            _ => panic!("unrecognized computation: {comp}"),
        }
    }

    /// Executes until the program counter leaves the program, a self-jump
    /// halts it, or the step budget runs out.
    fn run(&mut self, max_steps: usize) {
        let mut steps = 0;
        while self.pc < self.prog.len() && steps < max_steps {
            steps += 1;
            match &self.prog[self.pc] {
                Line::At(sym) => {
                    self.a = if sym.chars().all(|c| c.is_ascii_digit()) {
                        sym.parse::<i64>().unwrap()
                    } else {
                        self.symbols[sym]
                    };
                    self.pc += 1;
                },
                Line::Compute(dest, comp, jump) => {
                    let v = self.comp(comp);
                    if !dest.is_empty() {
                        match dest.as_str() {
                            "A" => self.a = v,
                            "D" => self.d = v,
                            "M" => self.ram[self.a as usize] = v,
                            other => panic!("unrecognized destination: {other}"),
                        }
                        self.pc += 1;
                    } else {
                        let taken = match jump.as_str() {
                            "JMP" => true,
                            "JEQ" => v == 0,
                            "JGT" => v > 0,
                            "JLT" => v < 0,
                            "JNE" => v != 0,
                            other => panic!("unrecognized jump: {other}"),
                        };
                        if taken {
                            let target = self.a as usize;
                            if target == self.pc {
                                return; // a halt self-jump
                            }
                            self.pc = target;
                        } else {
                            self.pc += 1;
                        }
                    }
                },
            }
        }
    }
}

fn emit(unit: &str, source: &[&str], with_bootstrap: bool) -> String {
    let mut parser = ParserClass::new(source.iter().map(|s| s.to_string()).collect());
    let mut writer = CodeWriterClass::new(unit.to_string());
    if with_bootstrap {
        writer.write_init();
    }
    translate(&mut parser, &mut writer).unwrap();
    writer.output.concat()
}

#[test]
fn push_then_pop_is_a_net_noop() {
    // pushing and immediately popping the same segment and index leaves
    // every cell unchanged except the scratch cell at the old stack top
    let cases: &[&str] = &["local 2", "argument 0", "this 5", "that 1", "temp 3", "pointer 1"];
    for spec in cases {
        let program = [format!("push {spec}"), format!("pop {spec}")];
        let source: Vec<&str> = program.iter().map(|s| s.as_str()).collect();
        let text = emit("Main", &source, false);
        let mut m = Machine::load(&text);
        m.ram[0] = 256; // stack top
        m.ram[1] = 1000; // local base
        m.ram[2] = 1100; // argument base
        m.ram[3] = 1200; // this base
        m.ram[4] = 1300; // that base
        for cell in 5..16 {
            m.ram[cell] = 70 + cell as i64;
        }
        for cell in 1000..1400 {
            m.ram[cell] = cell as i64;
        }
        let before = m.ram.clone();
        m.run(10_000);
        assert_eq!(m.ram[0], 256, "stack pointer not restored for {spec}");
        for cell in 0..2000 {
            if cell != 256 {
                assert_eq!(m.ram[cell], before[cell], "cell {cell} changed for {spec}");
            }
        }
    }
}

#[test]
fn static_push_pop_round_trip() {
    let text = emit("Main", &["push constant 31", "pop static 2", "push static 2", "pop temp 0"], false);
    let mut m = Machine::load(&text);
    m.ram[0] = 256;
    m.run(10_000);
    assert_eq!(m.ram[0], 256);
    assert_eq!(m.ram[5], 31); // temp 0 received the round-tripped value
}

#[test]
fn comparison_pushes_true_and_false() {
    let text = emit(
        "Main",
        &[
            "push constant 5", "push constant 5", "eq",
            "pop temp 0",
            "push constant 9", "push constant 5", "gt",
            "pop temp 1",
            "push constant 9", "push constant 5", "lt",
            "pop temp 2",
        ],
        false,
    );
    let mut m = Machine::load(&text);
    m.ram[0] = 256;
    m.run(10_000);
    assert_eq!(m.ram[5], -1); // 5 == 5 is true (all ones)
    assert_eq!(m.ram[6], -1); // 9 > 5 is true
    assert_eq!(m.ram[7], 0); // 9 < 5 is false
    assert_eq!(m.ram[0], 256);
}

#[test]
fn call_and_return_restore_caller_frame() {
    // a zero-argument, zero-local callee: the call/return pair must
    // restore all four caller pointers and leave exactly the return
    // value net-pushed on the caller's stack
    let text = emit(
        "Sys",
        &[
            "function Sys.init 0",
            "push constant 3000",
            "pop pointer 0",
            "push constant 3010",
            "pop pointer 1",
            "call Sys.main 0",
            "pop temp 0",
            "label DONE",
            "goto DONE",
            "function Sys.main 0",
            "push constant 42",
            "return",
        ],
        true,
    );
    let mut m = Machine::load(&text);
    m.run(100_000);
    // the bootstrap called Sys.init: stack top was 261 inside it
    assert_eq!(m.ram[5], 42, "the callee's return value reached the caller");
    assert_eq!(m.ram[3], 3000, "this-base restored after the call");
    assert_eq!(m.ram[4], 3010, "that-base restored after the call");
    assert_eq!(m.ram[0], 261, "stack top back to its pre-call height");
    assert_eq!(m.ram[1], 261, "local base of the enclosing function kept");
    assert_eq!(m.ram[2], 256, "argument base of the enclosing function kept");
}

#[test]
fn locals_are_zero_initialized() {
    let text = emit(
        "Sys",
        &[
            "function Sys.init 3",
            "push constant 7",
            "pop local 1",
            "label DONE",
            "goto DONE",
        ],
        true,
    );
    let mut m = Machine::load(&text);
    // plant garbage where the locals will live: the stack top right
    // after the bootstrap's call is 261
    m.ram[261] = 999;
    m.ram[262] = 999;
    m.ram[263] = 999;
    m.run(100_000);
    assert_eq!(m.ram[261], 0); // local 0 zeroed by the declaration
    assert_eq!(m.ram[262], 7); // local 1 zeroed, then assigned
    assert_eq!(m.ram[263], 0); // local 2 zeroed
    assert_eq!(m.ram[0], 264, "stack grew past the three locals");
}
