use vstd::prelude::*;
use vstd::string::StrSliceExecFns;
use vstd::string::StringExecFns;

use crate::text::{
    is_ascii_ws, is_unicode_ws, tokenize, tokens_of, trim, trim_end, trim_start, trimmed,
    lemma_word_len_at,
};

verus! {

/// What the interpreter does with one line of input.
#[derive(Debug, Clone, PartialEq, Eq)]
pub enum Action {
    /// Leave the interpreter with status 0.
    Exit,
    /// Nothing to do: read the next line.
    Blank,
    /// Change the working directory to the given path.
    ChangeDir(String),
    /// Run the given (trimmed) command line as a child process.
    Launch(String),
}

/// The mathematical value of an [`Action`].
pub enum Step {
    Exit,
    Blank,
    ChangeDir(Seq<char>),
    Launch(Seq<char>),
}

impl View for Action {
    type V = Step;

    open spec fn view(&self) -> Step {
        match self {
            Action::Exit => Step::Exit,
            Action::Blank => Step::Blank,
            Action::ChangeDir(p) => Step::ChangeDir(p@),
            Action::Launch(c) => Step::Launch(c@),
        }
    }
}

/// The directory that `cd` without an argument changes to.
pub open spec fn home_dir() -> Seq<char> {
    "/"@
}

/// The action that a line of input calls for: `exit` alone (after trimming)
/// leaves; a line without words does nothing; `cd` changes to its first
/// argument, or to the root without one; anything else is launched whole.
pub open spec fn step_of(line: Seq<char>) -> Step {
    let c = trimmed(line);
    let t = tokens_of(c);
    if c == "exit"@ {
        Step::Exit
    } else if t.len() == 0 {
        Step::Blank
    } else if t[0] == "cd"@ {
        Step::ChangeDir(if t.len() > 1 { t[1] } else { home_dir() })
    } else {
        Step::Launch(c)
    }
}

/// The prompt shown before each line is read.
pub open spec fn prompt_of(dir: Seq<char>) -> Seq<char> {
    "mini-shell("@ + dir + ")> "@
}

/// Whether two texts are the same.
pub fn same_text(a: &str, b: &str) -> (r: bool)
    ensures
        r == (a@ == b@),
{
    let n = a.unicode_len();
    if n != b.unicode_len() {
        return false;
    }
    let mut i: usize = 0;
    while i < n
        invariant
            n == a@.len() == b@.len(),
            i <= n,
            forall|k: int| 0 <= k < i ==> a@[k] == b@[k],
        decreases n - i,
    {
        if a.get_char(i) != b.get_char(i) {
            return false;
        }
        i = i + 1;
    }
    assert(a@ =~= b@);
    true
}

/// Decides what to do with one line of input.
pub fn interpret(line: &str) -> (r: Action)
    ensures
        r@ == step_of(line@),
{
    let c = trim(line);
    if same_text(c, "exit") {
        return Action::Exit;
    }
    let t = tokenize(c);
    if t.len() == 0 {
        return Action::Blank;
    }
    assert(t@[0]@ == tokens_of(c@)[0]);
    if same_text(t[0].as_str(), "cd") {
        if t.len() > 1 {
            assert(t@[1]@ == tokens_of(c@)[1]);
            Action::ChangeDir(t[1].clone())
        } else {
            Action::ChangeDir(String::from_str("/"))
        }
    } else {
        Action::Launch(c.to_owned())
    }
}

/// The prompt that shows the working directory `dir`.
pub fn prompt(dir: &str) -> (r: String)
    ensures
        r@ == prompt_of(dir@),
{
    let mut p = String::from_str("mini-shell(");
    p.append(dir);
    p.append(")> ");
    p
}

/// A text of whitespace only trims to nothing.
proof fn lemma_all_ws_trims_empty(s: Seq<char>)
    requires
        forall|i: int| 0 <= i < s.len() ==> is_unicode_ws(#[trigger] s[i]),
    ensures
        trim_start(s) == Seq::<char>::empty(),
    decreases s.len(),
{
    if s.len() > 0 {
        let t = s.drop_first();
        assert forall|i: int| 0 <= i < t.len() implies is_unicode_ws(#[trigger] t[i]) by {
            assert(t[i] == s[i + 1]);
        }
        lemma_all_ws_trims_empty(t);
    } else {
        assert(s =~= Seq::<char>::empty());
    }
}

/// A non-empty text without whitespace is a single word.
proof fn lemma_single_word(s: Seq<char>)
    requires
        s.len() > 0,
        forall|i: int| 0 <= i < s.len() ==> !is_ascii_ws(#[trigger] s[i]),
    ensures
        tokens_of(s) == seq![s],
{
    lemma_word_len_at(s, 0, s.len() as int);
    assert(s.skip(0) =~= s);
    assert(s.take(s.len() as int) =~= s);
    assert(s.skip(s.len() as int) =~= Seq::<char>::empty());
    assert(tokens_of(s.skip(s.len() as int)) == Seq::<Seq<char>>::empty());
    assert(seq![s] + Seq::<Seq<char>>::empty() =~= seq![s]);
}

/// A line of whitespace only (or nothing at all) is no command: nothing is
/// launched and the interpreter goes on to the next line.
pub proof fn lemma_blank_line_is_skipped(line: Seq<char>)
    requires
        forall|i: int| 0 <= i < line.len() ==> is_unicode_ws(#[trigger] line[i]),
    ensures
        step_of(line) == Step::Blank,
{
    lemma_all_ws_trims_empty(line);
    reveal_strlit("exit");
    assert(trimmed(line) == Seq::<char>::empty());
    assert(tokens_of(Seq::<char>::empty()) == Seq::<Seq<char>>::empty());
}

/// A line that is `exit` once trimmed leaves the interpreter, and launches
/// nothing.
pub proof fn lemma_exit_line_leaves(line: Seq<char>)
    requires
        trimmed(line) == "exit"@,
    ensures
        step_of(line) == Step::Exit,
{
}

/// `cd` followed by a path changes to that path, and `cd` alone changes to
/// the root directory; nothing is launched for either.
pub proof fn lemma_cd_changes_dir(line: Seq<char>, path: Seq<char>)
    ensures
        tokens_of(trimmed(line)) == seq!["cd"@, path] ==> step_of(line) == Step::ChangeDir(path),
        tokens_of(trimmed(line)) == seq!["cd"@] ==> step_of(line) == Step::ChangeDir(home_dir()),
{
    let exit_word = "exit"@;
    reveal_strlit("exit");
    reveal_strlit("cd");
    assert forall|i: int| 0 <= i < exit_word.len() implies !is_ascii_ws(#[trigger] exit_word[i]) by {}
    lemma_single_word(exit_word);
    assert(exit_word != "cd"@);
}

} // verus!
