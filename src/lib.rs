//! The decisions of a small interactive command interpreter: what a line of
//! input asks for (leave, nothing, change directory, run a program), how a
//! program's command line splits into the command and a redirection, and the
//! argument vector that executes it. The process work itself (fork, exec,
//! descriptor duplication, waiting) is done by the caller.
pub mod command;
pub mod launch;
pub mod text;

pub use command::{interpret, prompt, same_text, Action};
pub use launch::{exec_args, plan_launch, ExecError, Launch, STDIN_FD, STDOUT_FD};
pub use text::{find_char, tokenize, trim};
