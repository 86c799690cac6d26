use std::collections::HashMap;

use atc::{CodeGen, ErrorKind, NodeProgram, Parser, Tokeniser};

fn program(src: &str) -> NodeProgram {
    let mut t = Tokeniser::new(src.to_string(), false);
    let tokens = t.tokenise().expect("source should lex");
    let mut p = Parser { tokens, index: 0 };
    p.parse().expect("source should parse")
}

fn compile(src: &str) -> Result<String, atc::Error> {
    let ast = program(src);
    let mut g = CodeGen::new();
    g.gen_output(&ast)
}

/// Runs the generated assembly on a small model of the machine: the exit
/// status and the bytes written to standard output.
fn run(text: &str) -> (i64, Vec<u8>) {
    let lines: Vec<&str> = text.lines().map(|l| l.trim()).collect();
    let mut labels: HashMap<&str, usize> = HashMap::new();
    for (i, l) in lines.iter().enumerate() {
        if let Some(name) = l.strip_suffix(':') {
            labels.insert(name, i);
        }
    }
    let mut regs: HashMap<String, i64> = HashMap::new();
    let mut mem: HashMap<i64, i64> = HashMap::new();
    let mut out = Vec::new();
    let mut rsp: i64 = 1 << 20;
    let mut pc = labels["_start"];
    let mut steps = 0;
    loop {
        steps += 1;
        assert!(steps < 100_000, "program did not stop");
        let l = lines[pc];
        pc += 1;
        if l.is_empty() || l.starts_with(';') || l.ends_with(':') || l.starts_with("global") {
            continue;
        }
        let (op, rest) = l.split_once(' ').unwrap_or((l, ""));
        let args: Vec<&str> = rest.split(", ").map(|a| a.trim()).collect();
        let reg = |r: &str| if r == "edi" { "rdi".to_string() } else { r.to_string() };
        let val = |a: &str, regs: &HashMap<String, i64>, rsp: i64| -> i64 {
            if a == "rsp" {
                rsp
            } else if let Ok(n) = a.parse::<i64>() {
                n
            } else {
                *regs.get(&reg(a)).unwrap_or(&0)
            }
        };
        match op {
            "push" => {
                let v = val(args[0], &regs, rsp);
                rsp -= 8;
                mem.insert(rsp, v);
            },
            "pop" => {
                let v = *mem.get(&rsp).unwrap_or(&0);
                rsp += 8;
                regs.insert(reg(args[0]), v);
            },
            "mov" => {
                if args[0].starts_with('[') {
                    let off: i64 = args[0].trim_start_matches("[rsp + ").trim_end_matches(']').parse().unwrap();
                    let v = val(args[1], &regs, rsp);
                    mem.insert(rsp + off, v);
                } else if args[1].starts_with("QWORD") {
                    let off: i64 = args[1].trim_start_matches("QWORD [rsp + ").trim_end_matches(']').parse().unwrap();
                    let v = *mem.get(&(rsp + off)).unwrap_or(&0);
                    regs.insert(reg(args[0]), v);
                } else {
                    let v = val(args[1], &regs, rsp);
                    regs.insert(reg(args[0]), v);
                }
            },
            "add" | "sub" if args[0] == "rsp" => {
                let n: i64 = args[1].parse().unwrap();
                rsp = if op == "add" { rsp + n } else { rsp - n };
            },
            "add" => {
                let v = val(args[0], &regs, rsp) + val(args[1], &regs, rsp);
                regs.insert(reg(args[0]), v);
            },
            "sub" => {
                let v = val(args[0], &regs, rsp) - val(args[1], &regs, rsp);
                regs.insert(reg(args[0]), v);
            },
            "mul" => {
                let v = val("rax", &regs, rsp) * val(args[0], &regs, rsp);
                regs.insert("rax".to_string(), v);
            },
            "xor" => {
                regs.insert(reg(args[0]), 0);
            },
            "idiv" => {
                let d = val(args[0], &regs, rsp);
                let a = val("rax", &regs, rsp);
                regs.insert("rax".to_string(), a / d);
                regs.insert("rdx".to_string(), a % d);
            },
            "call" => {
                rsp -= 8;
                mem.insert(rsp, pc as i64);
                pc = labels[args[0]];
            },
            "ret" => {
                pc = *mem.get(&rsp).unwrap() as usize;
                rsp += 8;
            },
            "syscall" => match val("rax", &regs, rsp) {
                60 => return (val("rdi", &regs, rsp) & 0xff, out),
                1 => {
                    let addr = val("rsi", &regs, rsp);
                    out.push((*mem.get(&addr).unwrap_or(&0) & 0xff) as u8);
                },
                n => panic!("unknown system call {}", n),
            },
            _ => panic!("unknown instruction {}", l),
        }
    }
}

#[test]
fn declared_variable_plus_one_exits_six() {
    let text = compile("int x = 5; exit(x + 1);").unwrap();
    assert_eq!(
        text,
        "global _start\n_start:\n    push rsp\n\
         \x20   ; declare variable x\n    ; initial value for variable\n    push 5\n\
         \x20   mov rax, QWORD [rsp + 0]\n    push rax\n    push 1\n\
         \x20   pop rax\n    pop rdi\n    add rax, rdi\n    push rax\n\
         \x20   mov rax, 60\n    pop rdi\n    syscall\n\
         \x20   mov rax, 60\n    mov rdi, 0\n    syscall\n"
    );
    assert_eq!(run(&text), (6, vec![]));
}

#[test]
fn function_call_writes_one_byte_and_exits_zero() {
    let text = compile("fn f() { putchar(65); } f();").unwrap();
    assert_eq!(
        text,
        "global _start\n_start:\n    push rsp\n    call fn_f\n\
         \x20   mov rax, 60\n    mov rdi, 0\n    syscall\n\
         fn_f:\n    ; put char\n    push 65\n\
         \x20   mov rax, 1\n    mov edi, 1\n    mov rsi, rsp\n    mov rdx, 1\n    syscall\n\
         \x20   add rsp, 8\n    ; fix stack pointer\n    add rsp, 0\n    ret\n"
    );
    assert_eq!(run(&text), (0, vec![65]));
}

#[test]
fn read_offset_counts_pushes_since_declaration() {
    // x lies in the first slot; two words later it is 16 bytes up
    let text = compile("int x = 7; exit(1 + (2 + x) );").unwrap();
    assert!(text.contains("    mov rax, QWORD [rsp + 16]\n"));
    assert_eq!(run(&text).0, 10);
}

#[test]
fn assignment_stores_into_slot() {
    let text = compile("int a; int b = 3; a = b * 4; exit(a - b);").unwrap();
    assert!(text.contains("    sub rsp, 8\n"));
    assert!(text.contains("    mov [rsp + 8], rax\n"));
    assert_eq!(run(&text).0, 9);
}

#[test]
fn precedence_and_grouping_run() {
    assert_eq!(run(&compile("exit(2 + 3 * 4);").unwrap()).0, 14);
    assert_eq!(run(&compile("exit( (2 + 3) * 4);").unwrap()).0, 20);
    assert_eq!(run(&compile("exit(10 - 2 - 3);").unwrap()).0, 5);
    assert_eq!(run(&compile("exit(20 / 4 / 5);").unwrap()).0, 1);
}

#[test]
fn function_body_locals_are_released() {
    let text = compile("int x = 1; fn g() { int y = 66; putchar(y); } g(); g(); exit(x);").unwrap();
    assert!(text.contains("    add rsp, 8\n    ret\n"));
    assert_eq!(run(&text), (1, vec![66, 66]));
}

#[test]
fn function_defined_after_call() {
    let text = compile("h(); exit(3); fn h() { putchar(72); putchar(105); }").unwrap();
    assert_eq!(run(&text), (3, vec![72, 105]));
}

#[test]
fn redeclaration_names_the_identifier() {
    let e = compile("int x = 1;\nint x = 2;").unwrap_err();
    assert_eq!(e.kind, ErrorKind::Redeclared);
    assert_eq!(e.msg, "Variable x has already been declared!");
    assert_eq!(e.line, 2);
}

#[test]
fn read_before_declaration_names_the_identifier() {
    let e = compile("exit(y);\nint y = 1;").unwrap_err();
    assert_eq!(e.kind, ErrorKind::Undeclared);
    assert_eq!(e.msg, "Unknown identifier y");
    assert_eq!(e.line, 1);
}

#[test]
fn assignment_before_declaration_fails() {
    let e = compile("z = 4;").unwrap_err();
    assert_eq!(e.kind, ErrorKind::Undeclared);
    assert_eq!(e.msg, "Variable referenced before assignment z");
}

#[test]
fn empty_program_exits_zero() {
    let text = compile("").unwrap();
    assert_eq!(text, "global _start\n_start:\n    push rsp\n    mov rax, 60\n    mov rdi, 0\n    syscall\n");
    assert_eq!(run(&text), (0, vec![]));
}

#[test]
fn generate_appends_to_main_text() {
    let ast = program("exit(0);");
    let mut g = CodeGen::new();
    g.generate(&ast).unwrap();
    assert!(g.main_asm.ends_with("    mov rax, 60\n    pop rdi\n    syscall\n"));
    assert_eq!(g.post_asm, "    mov rax, 60\n    mov rdi, 0\n    syscall\n");
}

#[test]
fn text_accessors_show_both_parts() {
    let g = CodeGen::new();
    assert_eq!(g.main_text(), "global _start\n_start:\n    push rsp\n");
    assert_eq!(g.post_text(), "    mov rax, 60\n    mov rdi, 0\n    syscall\n");
}
