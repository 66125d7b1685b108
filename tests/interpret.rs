use mini_shell::{interpret, prompt, same_text, Action};

#[test]
fn empty_line_is_blank() {
    assert_eq!(interpret(""), Action::Blank);
}

#[test]
fn whitespace_lines_are_blank() {
    assert_eq!(interpret("   \t  \n"), Action::Blank);
    assert_eq!(interpret("\r\n"), Action::Blank);
    assert_eq!(interpret("\u{00A0}\u{3000}\u{2003}"), Action::Blank);
    assert_eq!(interpret("\u{0B}"), Action::Blank);
}

#[test]
fn exit_leaves() {
    assert_eq!(interpret("exit"), Action::Exit);
    assert_eq!(interpret("  exit \n"), Action::Exit);
}

#[test]
fn exit_with_argument_is_launched() {
    assert_eq!(interpret("exit now"), Action::Launch("exit now".to_string()));
    assert_eq!(interpret("exits"), Action::Launch("exits".to_string()));
}

#[test]
fn cd_with_path() {
    assert_eq!(interpret("cd /tmp\n"), Action::ChangeDir("/tmp".to_string()));
    assert_eq!(interpret("cd ."), Action::ChangeDir(".".to_string()));
}

#[test]
fn cd_takes_first_argument_only() {
    assert_eq!(interpret("  cd   a   b "), Action::ChangeDir("a".to_string()));
}

#[test]
fn cd_alone_goes_to_root() {
    assert_eq!(interpret("cd"), Action::ChangeDir("/".to_string()));
    assert_eq!(interpret("\tcd  \n"), Action::ChangeDir("/".to_string()));
}

#[test]
fn cd_to_missing_path_is_still_a_change_dir() {
    assert_eq!(
        interpret("cd /no/such/dir"),
        Action::ChangeDir("/no/such/dir".to_string())
    );
}

#[test]
fn other_lines_are_launched_trimmed() {
    assert_eq!(interpret("ls -l\n"), Action::Launch("ls -l".to_string()));
    assert_eq!(
        interpret("  echo hi > out.txt \n"),
        Action::Launch("echo hi > out.txt".to_string())
    );
    assert_eq!(interpret("cdx"), Action::Launch("cdx".to_string()));
}

#[test]
fn unknown_program_is_launched() {
    assert_eq!(
        interpret("this-does-not-exist"),
        Action::Launch("this-does-not-exist".to_string())
    );
}

#[test]
fn prompt_shows_directory() {
    assert_eq!(prompt("/tmp"), "mini-shell(/tmp)> ");
    assert_eq!(prompt(""), "mini-shell()> ");
}

#[test]
fn same_text_compares_characters() {
    assert!(same_text("cd", "cd"));
    assert!(!same_text("cd", "cx"));
    assert!(!same_text("cd", "cd "));
    assert!(same_text("", ""));
}
