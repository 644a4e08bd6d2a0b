use snek::current::compiler::{
    compile_def, compile_entry, compile_exit, compile_expr, compile_prog, expr_vars, init_env,
    label, test_number, try_compile_prog,
};
use snek::week2_if::compiler::compile_program as compile_week2_if;
use snek::week2_if::compiler::try_compile_program as try_week2_if;
use snek::week2_if::expr::Expr as E2;
use snek::week3_set_loop_break::compiler::{
    compile_program as compile_week3, label as week3_label, test_number as week3_test_number,
    try_compile_program as try_week3,
};
use snek::week3_set_loop_break::expr::Expr as E3;
use snek::week5_vec::expr::{eq, ite, num, plus, try_parse, Defn, Expr};

fn var(x: &str) -> Expr {
    Expr::Var(x.to_string())
}

const EXIT: &str = "mov rsp, rbp\n             pop rbp\n             ret";

#[test]
fn labels_and_checks() {
    assert_eq!(label("eq_exit".to_string(), &3), "eq_exit_3");
    assert_eq!(label("loop_start".to_string(), &-12), "loop_start_-12");
    assert_ne!(label("l".to_string(), &1), label("l".to_string(), &10));
    assert_eq!(
        test_number(99),
        "mov rcx, rax\n             and rcx, 3\n             cmp rcx, 0\n             mov rdi, 99\n             jne label_error"
    );
    assert_eq!(compile_exit(), EXIT);
}

#[test]
fn numbers_and_booleans_are_tagged() {
    let env = im::HashMap::new();
    let mut count = 0;
    assert_eq!(compile_expr(&num(5), &env, 2, &mut count, "t"), "mov rax, 10");
    assert_eq!(compile_expr(&num(-4), &env, 2, &mut count, "t"), "mov rax, -8");
    assert_eq!(compile_expr(&num(1 << 30), &env, 2, &mut count, "t"), "mov rax, -2147483648");
    assert_eq!(compile_expr(&Expr::True, &env, 2, &mut count, "t"), "mov rax, 7");
    assert_eq!(compile_expr(&Expr::False, &env, 2, &mut count, "t"), "mov rax, 3");
    assert_eq!(compile_expr(&Expr::Input, &env, 2, &mut count, "t"), "mov rax, [rbp - 8]");
    assert_eq!(count, 0);
}

#[test]
fn conditional_draws_one_label_number() {
    let env = im::HashMap::new();
    let mut count = 0;
    let code = compile_expr(&ite(Expr::True, num(1), num(2)), &env, 2, &mut count, "t");
    assert_eq!(
        code,
        "mov rax, 7\n                      cmp rax, 3\n                      je label_else_1\n                      mov rax, 2\n                      jmp label_exit_1\n                    label_else_1:\n                      mov rax, 4\n                    label_exit_1:"
    );
    assert_eq!(count, 1);
}

#[test]
fn nested_conditionals_share_the_last_number() {
    // the label number of a conditional is read after its branches are compiled
    let env = im::HashMap::new();
    let mut count = 0;
    let e = ite(ite(Expr::True, Expr::False, Expr::True), num(1), num(2));
    let code = compile_expr(&e, &env, 2, &mut count, "t");
    assert_eq!(count, 2);
    assert_eq!(code.matches("label_else_2:").count(), 2);
    assert_eq!(code.matches("label_else_1").count(), 0);
}

#[test]
fn equality_loop_and_break() {
    let env = im::HashMap::new();
    let mut count = 4;
    let code = compile_expr(&eq(num(1), num(2)), &env, 3, &mut count, "t");
    assert_eq!(
        code,
        "mov rax, 2\n                 mov [rbp - 8*3], rax\n                 mov rax, 4\n                 cmp rax, [rbp - 8*3]\n                 mov rax, 3\n                 jne eq_exit_5\n                 mov rax, 7\n               eq_exit_5:\n                "
    );
    assert_eq!(count, 5);
    let code = compile_expr(&Expr::Loop(Box::new(Expr::Break(Box::new(num(5))))), &env, 2, &mut count, "t");
    assert_eq!(
        code,
        "loop_start_6:\n                        mov rax, 10\n                     jmp loop_exit_6\n                        jmp loop_start_6\n                     loop_exit_6:"
    );
    assert_eq!(count, 6);
}

#[test]
fn let_block_and_assignment() {
    let env = im::HashMap::new();
    let mut count = 0;
    // (let (x 1) (block (set! x 2) x))
    let e = Expr::Let(
        "x".to_string(),
        Box::new(num(1)),
        Box::new(Expr::Block(vec![Expr::Assign("x".to_string(), Box::new(num(2))), var("x")])),
    );
    assert_eq!(
        compile_expr(&e, &env, 2, &mut count, "t"),
        "mov rax, 2\nmov [rbp - 8*2], rax\nmov rax, 4\n                     mov [rbp - 8*2], rax\nmov rax, [rbp - 8*2]"
    );
}

#[test]
fn plus_checks_both_operands() {
    let env = im::HashMap::new().update("a".to_string(), -2);
    let mut count = 0;
    let t99 = test_number(99);
    let t33 = test_number(33);
    let expected = format!(
        "mov rax, [rbp - 8*-2]\n                 {t99}\n                 mov [rbp - 8*1], rax\n                 mov rax, 2\n                 {t33}\n                 add rax, [rbp - 8*1]\n                "
    );
    assert_eq!(compile_expr(&plus(var("a"), num(1)), &env, 1, &mut count, "t"), expected);
}

#[test]
fn calls_print_and_pairs() {
    let env = im::HashMap::new();
    let mut count = 0;
    assert_eq!(
        compile_expr(&Expr::Call1("f".to_string(), Box::new(num(1))), &env, 2, &mut count, "t"),
        "mov rax, 2\n                 push rax\n                 call fun_start_f\n                 add rsp, 8*1\n                "
    );
    assert_eq!(
        compile_expr(&Expr::Print(Box::new(Expr::True)), &env, 2, &mut count, "t"),
        "mov rax, 7\n                     mov rdi, rax\n                     call snek_print\n                    "
    );
    assert_eq!(
        compile_expr(&Expr::Vec(Box::new(num(1)), Box::new(num(2))), &env, 2, &mut count, "t"),
        "mov rax, 2\n                 mov [rbp - 8*2], rax\n                 mov rax, 4\n                 mov rcx, [rbp - 8*2]\n                 mov [r11], rcx\n                 mov [r11 + 8], rax\n                 mov rax, r11\n                 add rax, 1\n                 add r11, 16"
    );
}

#[test]
fn slots_and_frames() {
    // (let (x 1) (+ x 2)) needs two slots
    let e = Expr::Let("x".to_string(), Box::new(num(1)), Box::new(plus(var("x"), num(2))));
    assert_eq!(expr_vars(&e), 2);
    assert_eq!(expr_vars(&Expr::Block(vec![num(1), e, num(2)])), 2);
    assert_eq!(
        compile_entry(&num(1), 3),
        "push rbp\n             mov rbp, rsp\n             sub rsp, 8*3"
    );
}

#[test]
fn parameters_sit_above_the_return_address() {
    let env = init_env(&["a".to_string(), "b".to_string()]);
    assert_eq!(env.get("a"), Some(&-2));
    assert_eq!(env.get("b"), Some(&-3));
    assert!(init_env(&[]).is_empty());
    let env = init_env(&["a".to_string(), "a".to_string()]);
    assert_eq!(env.get("a"), Some(&-3));
}

#[test]
fn definition_code() {
    let mut count = 0;
    let d = Defn::Fun1("inc".to_string(), "n".to_string(), Box::new(Expr::Add1(Box::new(var("n")))));
    assert_eq!(
        compile_def(&d, &mut count),
        format!(
            "fun_start_inc:\n            push rbp\n             mov rbp, rsp\n             sub rsp, 8*1\n         mov rax, [rbp - 8*-2]\nadd rax, 2\n         {EXIT}"
        )
    );
}

#[test]
fn whole_program() {
    let p = try_parse("5").unwrap();
    let expected = format!(
        "section .text\nglobal our_code_starts_here\nextern snek_error\nextern snek_print\nlabel_error:\n  push rsp\n  call snek_error\n\nour_code_starts_here:\n push rbp\n             mov rbp, rsp\n             sub rsp, 8*1\n mov [rbp - 8], rdi\n mov r11, rsi\n add r11, 7\n mov rax, 0xfffffffffffffff8\n and r11, rax\n mov rax, 10\n {EXIT}\ntime_to_exit:\n  ret\n"
    );
    assert_eq!(compile_prog(&p), expected);
    assert_eq!(try_compile_prog(&p), Some(expected));
}

#[test]
fn programs_that_do_not_compile() {
    assert!(try_compile_prog(&try_parse("(add1 y)").unwrap()).is_none());
    assert!(try_compile_prog(&try_parse("(<= 1 2)").unwrap()).is_none());
    assert!(try_compile_prog(&try_parse("(block)").unwrap()).is_none());
    assert!(try_compile_prog(&try_parse("(defn (f x) y) 1").unwrap()).is_none());
    assert!(try_compile_prog(&try_parse("(defn (f x) (set! x 2)) (f 1)").unwrap()).is_some());
}

#[test]
fn week3_program() {
    assert_eq!(week3_label("loop_exit".to_string(), &2), "loop_exit_2");
    assert_eq!(
        week3_test_number(33),
        "mov rcx, rax\n             and rcx, 1\n             cmp rcx, 0\n             mov rdi, 33\n             jne label_error"
    );
    let e = E3::Eq(Box::new(E3::Input), Box::new(E3::True));
    assert_eq!(
        compile_week3(&e),
        "section .text\nglobal our_code_starts_here\nextern snek_error\nlabel_error:\n  push rsp\n  call snek_error\nour_code_starts_here:\n  mov [rsp - 8], rdi\n  mov rax, [rsp - 8]\n                 mov [rsp - 8*2], rax\n                 mov rax, 3\n                 cmp rax, [rsp - 8*2]\n                 mov rax, 1\n                 jne eq_exit_1\n                 mov rax, 3\n               eq_exit_1:\n                \ntime_to_exit:\n  ret\n"
    );
}

#[test]
fn week2_if_program() {
    let e = E2::If(Box::new(E2::True), Box::new(E2::Num(1)), Box::new(E2::False));
    assert_eq!(
        compile_week2_if(&e),
        "section .text\nglobal our_code_starts_here\nour_code_starts_here:\n  mov rax, 1\n                      cmp rax, 0\n                      je label_else_1\n                      mov rax, 1\n                      jmp label_exit_1\n                    label_else_1:\n                      mov rax, 0\n                    label_exit_1:\n  ret\n"
    );
}

#[test]
fn try_compile_program_of_earlier_stages() {
    let e = E2::If(Box::new(E2::True), Box::new(E2::Num(1)), Box::new(E2::False));
    assert_eq!(try_week2_if(&e), Some(compile_week2_if(&e)));
    assert_eq!(try_week2_if(&E2::Var("y".to_string())), None);
    let e = E3::Eq(Box::new(E3::Input), Box::new(E3::True));
    assert_eq!(try_week3(&e), Some(compile_week3(&e)));
    assert_eq!(try_week3(&E3::Var("y".to_string())), None);
}

fn label_numbers_defined(code: &str) -> Vec<i64> {
    let mut out = Vec::new();
    for line in code.lines() {
        let t = line.trim();
        if let Some(head) = t.strip_suffix(':') {
            for p in ["label_else_", "label_exit_", "eq_exit_", "loop_start_", "loop_exit_"] {
                if let Some(k) = head.strip_prefix(p) {
                    out.push(k.parse().unwrap());
                }
            }
        }
    }
    out
}

#[test]
fn labels_lie_in_the_counter_range() {
    let env = im::HashMap::new();
    let mut count = 4;
    let e = Expr::Block(vec![
        ite(eq(num(1), num(2)), Expr::Loop(Box::new(Expr::Break(Box::new(num(3))))), num(4)),
        eq(Expr::True, Expr::False),
    ]);
    let code = compile_expr(&e, &env, 2, &mut count, "t");
    assert_eq!(count, 8);
    let ks = label_numbers_defined(&code);
    assert_eq!(ks.len(), 6);
    assert!(ks.iter().all(|k| 5 <= *k && *k <= 8));
}

#[test]
fn stores_lie_in_the_frame() {
    let env = im::HashMap::new();
    let mut count = 0;
    // (let (x (+ 1 2)) (* x (vec 3 4)))
    let e = Expr::Let(
        "x".to_string(),
        Box::new(plus(num(1), num(2))),
        Box::new(Expr::Mult(Box::new(var("x")), Box::new(Expr::Vec(Box::new(num(3)), Box::new(num(4)))))),
    );
    let sp = 2;
    let n = expr_vars(&e);
    assert_eq!(n, 3);
    let code = compile_expr(&e, &env, sp, &mut count, "t");
    let mut slots = Vec::new();
    for line in code.lines() {
        let t = line.trim();
        if let Some(rest) = t.strip_prefix("mov [rbp - 8*") {
            if let Some(k) = rest.strip_suffix("], rax") {
                slots.push(k.parse::<usize>().unwrap());
            }
        } else if let Some(rest) = t.strip_prefix("mov [rbp - ") {
            if let Some(k) = rest.strip_suffix("], rax") {
                slots.push(k.parse::<usize>().unwrap() / 8);
            }
        }
    }
    assert_eq!(slots.len(), 4);
    assert!(slots.iter().all(|k| sp <= *k && *k <= sp - 1 + n));
}
