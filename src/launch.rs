//! How a task's command is handed to the host's command interpreter.

use crate::model::{copy_env, ConfigModel, TaskConfig};
use std::collections::HashMap;
use vstd::prelude::*;

verus! {

/// Rows of the terminal that a new instance starts with.
pub const TERMINAL_ROWS: u16 = 24;

/// Columns of the terminal that a new instance starts with.
pub const TERMINAL_COLS: u16 = 80;

/// The family of the host's command interpreter.
#[derive(Clone, Copy, Debug, PartialEq, Eq, Structural)]
pub enum HostShell {
    /// `sh -c <command>`
    Posix,
    /// `cmd /C <command>`
    Windows,
}

/// What to spawn for one instance of a task, inside a new terminal.
#[derive(Clone, Debug)]
pub struct LaunchSpec {
    pub program: String,
    pub args: Vec<String>,
    pub env_vars: Option<HashMap<String, String>>,
    pub rows: u16,
    pub cols: u16,
}

pub struct LaunchModel {
    pub program: Seq<char>,
    pub args: Seq<Seq<char>>,
    pub env_vars: Option<Map<String, String>>,
    pub rows: u16,
    pub cols: u16,
}

impl View for LaunchSpec {
    type V = LaunchModel;

    open spec fn view(&self) -> LaunchModel {
        LaunchModel {
            program: self.program@,
            args: self.args@.map_values(|a: String| a@),
            env_vars: crate::model::env_model(self.env_vars),
            rows: self.rows,
            cols: self.cols,
        }
    }
}

pub open spec fn shell_program(shell: HostShell) -> Seq<char> {
    match shell {
        HostShell::Posix => seq!['s', 'h'],
        HostShell::Windows => seq!['c', 'm', 'd'],
    }
}

/// The interpreter's flag that makes it run the next argument as a command.
pub open spec fn shell_flag(shell: HostShell) -> Seq<char> {
    match shell {
        HostShell::Posix => seq!['-', 'c'],
        HostShell::Windows => seq!['/', 'C'],
    }
}

/// The interpreter, given the command string as one argument, with the
/// task's environment entries on top of the inherited environment.
pub open spec fn launch_model(c: ConfigModel, shell: HostShell) -> LaunchModel {
    LaunchModel {
        program: shell_program(shell),
        args: seq![shell_flag(shell), c.command],
        env_vars: c.env_vars,
        rows: TERMINAL_ROWS,
        cols: TERMINAL_COLS,
    }
}

/// The launch of one instance of the task `config`.
pub fn launch_for(config: &TaskConfig, shell: HostShell) -> (r: LaunchSpec)
    ensures
        r@ == launch_model(config@, shell),
{
    let (program, flag) = match shell {
        HostShell::Posix => ("sh".to_string(), "-c".to_string()),
        HostShell::Windows => ("cmd".to_string(), "/C".to_string()),
    };
    proof {
        reveal_strlit("sh");
        reveal_strlit("-c");
        reveal_strlit("cmd");
        reveal_strlit("/C");
    }
    assert(program@ =~= shell_program(shell));
    assert(flag@ =~= shell_flag(shell));
    let mut args: Vec<String> = Vec::new();
    args.push(flag);
    args.push(config.command.clone());
    let r = LaunchSpec {
        program,
        args,
        env_vars: copy_env(&config.env_vars),
        rows: TERMINAL_ROWS,
        cols: TERMINAL_COLS,
    };
    assert(r@.args =~= seq![shell_flag(shell), config@.command]);
    r
}

} // verus!
