use hack_translator::assembler::assemble;
use hack_translator::codegen::convert_to_asm;
use hack_translator::vm::parser;

/// Translates VM source to assembly, assembles it, and decodes the binary
/// lines into machine words.
fn words_of(source: &str) -> Vec<u16> {
    let commands = parser(source);
    let translated = convert_to_asm(&commands).unwrap();
    let lines: Vec<String> = translated.lines().map(|s| s.to_string()).collect();
    let binary = assemble(lines).unwrap();
    binary
        .lines()
        .map(|l| {
            assert_eq!(l.len(), 16);
            u16::from_str_radix(l, 2).unwrap()
        })
        .collect()
}

/// Executes machine words for at most `steps` steps over the given memory.
fn run(words: &[u16], ram: &mut [i16], steps: usize) {
    let mut a: i16 = 0;
    let mut d: i16 = 0;
    let mut pc: usize = 0;
    for _ in 0..steps {
        if pc >= words.len() {
            break;
        }
        let w = words[pc];
        if w & 0x8000 == 0 {
            a = w as i16;
            pc += 1;
            continue;
        }
        let abit = (w >> 12) & 1;
        let c = (w >> 6) & 0x3f;
        let dbits = (w >> 3) & 7;
        let jbits = w & 7;
        let m_addr = (a as u16 & 0x7fff) as usize;
        let x = d;
        let y = if abit == 1 { ram[m_addr] } else { a };
        let out: i16 = match c {
            0b101010 => 0,
            0b111111 => 1,
            0b111010 => -1,
            0b001100 => x,
            0b110000 => y,
            0b001101 => !x,
            0b110001 => !y,
            0b001111 => x.wrapping_neg(),
            0b110011 => y.wrapping_neg(),
            0b011111 => x.wrapping_add(1),
            0b110111 => y.wrapping_add(1),
            0b001110 => x.wrapping_sub(1),
            0b110010 => y.wrapping_sub(1),
            0b000010 => x.wrapping_add(y),
            0b010011 => x.wrapping_sub(y),
            0b000111 => y.wrapping_sub(x),
            0b000000 => x & y,
            0b010101 => x | y,
            _ => panic!("unrecognized computation pattern"),
        };
        if dbits & 1 == 1 {
            ram[m_addr] = out;
        }
        if dbits & 2 == 2 {
            d = out;
        }
        if dbits & 4 == 4 {
            a = out;
        }
        let jump = (jbits & 4 != 0 && out < 0) || (jbits & 2 != 0 && out == 0)
            || (jbits & 1 != 0 && out > 0);
        if jump {
            pc = (a as u16 & 0x7fff) as usize;
        } else {
            pc += 1;
        }
    }
}

fn fresh_ram() -> Vec<i16> {
    let mut ram = vec![0i16; 32768];
    ram[0] = 256;
    ram
}

#[test]
fn push_constants_and_add_leaves_fifteen_on_top() {
    let words = words_of("push constant 7\npush constant 8\nadd\n");
    let mut ram = fresh_ram();
    run(&words, &mut ram, 1000);
    assert_eq!(ram[0], 257);
    assert_eq!(ram[256], 15);
}

#[test]
fn push_then_pop_local_is_a_net_no_op() {
    let words = words_of("push local 2\npop local 2\n");
    let mut ram = fresh_ram();
    ram[1] = 300;
    ram[302] = 77;
    run(&words, &mut ram, 1000);
    assert_eq!(ram[302], 77);
    assert_eq!(ram[0], 256);
}

#[test]
fn push_then_pop_pointer_is_a_net_no_op() {
    let words = words_of("push pointer 0\npop pointer 0\n");
    let mut ram = fresh_ram();
    ram[3] = 3000;
    run(&words, &mut ram, 1000);
    assert_eq!(ram[3], 3000);
    assert_eq!(ram[0], 256);
}

#[test]
fn push_then_pop_temp_is_a_net_no_op() {
    let words = words_of("push temp 4\npop temp 4\n");
    let mut ram = fresh_ram();
    ram[9] = -12;
    run(&words, &mut ram, 1000);
    assert_eq!(ram[9], -12);
    assert_eq!(ram[0], 256);
}

#[test]
fn push_then_pop_static_is_a_net_no_op() {
    // The one static symbol of this program is the first variable the
    // assembler binds, so it lands at address 16.
    let words = words_of("push static 4\npop static 4\n");
    let mut ram = fresh_ram();
    ram[16] = 55;
    run(&words, &mut ram, 1000);
    assert_eq!(ram[16], 55);
    assert_eq!(ram[0], 256);
}

#[test]
fn call_and_return_keep_the_frame_discipline() {
    let source = "push constant 3\n\
                  call f 1\n\
                  label END\n\
                  goto END\n\
                  function f 0\n\
                  push constant 9\n\
                  return\n";
    let words = words_of(source);
    let mut ram = fresh_ram();
    ram[1] = 300;
    ram[2] = 400;
    ram[3] = 3000;
    ram[4] = 3010;
    run(&words, &mut ram, 10000);
    // One argument was pushed before the call; after return the argument is
    // consumed and the single return value sits in its place.
    assert_eq!(ram[0], 257);
    assert_eq!(ram[256], 9);
    assert_eq!(ram[1], 300);
    assert_eq!(ram[2], 400);
    assert_eq!(ram[3], 3000);
    assert_eq!(ram[4], 3010);
}

#[test]
fn comparison_pushes_all_ones_for_true() {
    let words = words_of("push constant 5\npush constant 5\neq\n");
    let mut ram = fresh_ram();
    run(&words, &mut ram, 1000);
    assert_eq!(ram[0], 257);
    assert_eq!(ram[256], -1);
}

#[test]
fn comparison_pushes_all_zeros_for_false() {
    let words = words_of("push constant 5\npush constant 6\ngt\n");
    let mut ram = fresh_ram();
    run(&words, &mut ram, 1000);
    assert_eq!(ram[0], 257);
    assert_eq!(ram[256], 0);
}

#[test]
fn if_goto_jumps_on_nonzero() {
    let source = "push constant 2\n\
                  if-goto SKIP\n\
                  push constant 9\n\
                  label SKIP\n";
    let words = words_of(source);
    let mut ram = fresh_ram();
    run(&words, &mut ram, 1000);
    assert_eq!(ram[0], 256);
}
