use mini_shell::{
    exec_args, find_char, plan_launch, tokenize, trim, ExecError, Launch, STDIN_FD, STDOUT_FD,
};

fn words(v: &[&str]) -> Vec<String> {
    v.iter().map(|s| s.to_string()).collect()
}

#[test]
fn output_redirect_splits_line() {
    let plan = plan_launch("echo hi > out.txt");
    assert_eq!(
        plan,
        Launch::ToFile { command: "echo hi ".to_string(), file: "out.txt".to_string() }
    );
    assert_eq!(plan.descriptor(), Some(STDOUT_FD));
    assert_eq!(plan.file(), Some(&"out.txt".to_string()));
    assert_eq!(exec_args(plan.command()), Ok(words(&["echo", "hi"])));
}

#[test]
fn input_redirect_splits_line() {
    let plan = plan_launch("wc -l < in.txt");
    assert_eq!(
        plan,
        Launch::FromFile { command: "wc -l ".to_string(), file: "in.txt".to_string() }
    );
    assert_eq!(plan.descriptor(), Some(STDIN_FD));
    assert_eq!(plan.file(), Some(&"in.txt".to_string()));
    assert_eq!(exec_args(plan.command()), Ok(words(&["wc", "-l"])));
}

#[test]
fn redirect_without_spaces() {
    assert_eq!(
        plan_launch("ls>list"),
        Launch::ToFile { command: "ls".to_string(), file: "list".to_string() }
    );
}

#[test]
fn output_redirect_wins_over_input() {
    assert_eq!(
        plan_launch("cat < a > b"),
        Launch::ToFile { command: "cat < a ".to_string(), file: "b".to_string() }
    );
    assert_eq!(
        plan_launch("sort > out < in"),
        Launch::ToFile { command: "sort ".to_string(), file: "out < in".to_string() }
    );
}

#[test]
fn plain_line_has_no_redirect() {
    let plan = plan_launch("ls -a");
    assert_eq!(plan, Launch::Plain("ls -a".to_string()));
    assert_eq!(plan.descriptor(), None);
    assert_eq!(plan.file(), None);
    assert_eq!(plan.command(), "ls -a");
}

#[test]
fn second_command_does_not_inherit_redirect() {
    let first = plan_launch("echo a > f");
    assert_eq!(first.descriptor(), Some(STDOUT_FD));
    let second = plan_launch("echo b");
    assert_eq!(second, Launch::Plain("echo b".to_string()));
    assert_eq!(second.descriptor(), None);
}

#[test]
fn unknown_program_args() {
    assert_eq!(
        exec_args("this-does-not-exist"),
        Ok(words(&["this-does-not-exist"]))
    );
}

#[test]
fn args_of_empty_command() {
    assert_eq!(exec_args(""), Err(ExecError::EmptyCommand));
    assert_eq!(exec_args("  \t "), Err(ExecError::EmptyCommand));
    assert_eq!(exec_args(plan_launch("> out").command()), Err(ExecError::EmptyCommand));
}

#[test]
fn args_with_nul() {
    assert_eq!(exec_args("echo a\0b"), Err(ExecError::NulInArgument));
}

#[test]
fn tokenize_splits_on_ascii_whitespace() {
    assert_eq!(tokenize("  ls  -l\t/tmp\n"), words(&["ls", "-l", "/tmp"]));
    assert_eq!(tokenize(""), Vec::<String>::new());
    assert_eq!(tokenize("a\u{0B}b c"), words(&["a\u{0B}b", "c"]));
    assert_eq!(tokenize("a\u{A0}b"), words(&["a\u{A0}b"]));
}

#[test]
fn trim_removes_unicode_whitespace() {
    assert_eq!(trim("\u{3000} a b \t\n"), "a b");
    assert_eq!(trim("\u{0B}x\u{85}"), "x");
    assert_eq!(trim("   "), "");
    assert_eq!(trim("é"), "é");
}

#[test]
fn find_char_gives_first_index_or_length() {
    assert_eq!(find_char("ab>c>d", '>'), 2);
    assert_eq!(find_char("abc", '>'), 3);
    assert_eq!(find_char("é>", '>'), 1);
}
