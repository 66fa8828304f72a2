//! The interpreter: what typing a character and submitting a line do to
//! the screen and to the privilege level of a session.

use crate::command::{listing, parse_line, AccessLevel, CommandView, ShellCommands};
use crate::screen::{Screen, ShellData};
use vstd::prelude::*;
use vstd::string::{StrSliceExecFns, StringExecFns};

verus! {

/// The character that stands for the backspace key.
pub const BACKSPACE: char = '\u{8}';

/// The character that asks for help on the line being typed.
pub const HELP_KEY: char = '?';

/// The name of the host that a session runs on.
#[derive(Clone, Debug, PartialEq, Eq)]
pub struct Hostname(pub String);

impl View for Hostname {
    type V = Seq<char>;

    open spec fn view(&self) -> Seq<char> {
        self.0@
    }
}

/// The prompt of a host at a privilege level: the hostname, then `> ` for
/// a user or `# ` for an administrator.
pub open spec fn prompt(hostname: Seq<char>, level: AccessLevel) -> Seq<char> {
    hostname + match level {
        AccessLevel::User => "> "@,
        AccessLevel::Admin => "# "@,
    }
}

impl Hostname {
    /// The prompt of this host at the given privilege level.
    pub fn prompt(&self, access_level: AccessLevel) -> (text: String)
        ensures
            text@ == prompt(self@, access_level),
    {
        let mut text = self.0.clone();
        match access_level {
            AccessLevel::User => text.append("> "),
            AccessLevel::Admin => text.append("# "),
        }
        text
    }
}

impl Screen {
    /// The command on the line being typed, for a session on `hostname` at
    /// `level`: the line starts behind the prompt.
    pub open spec fn submitted(self, level: AccessLevel, hostname: Seq<char>) -> CommandView {
        parse_line(self.current_line(prompt(hostname, level).len() as int))
    }

    /// The screen after the line being typed is submitted at `level`. A
    /// `clear` empties the screen first. Then the reply is written on a new
    /// line, and the prompt on the line after it. The prompt is that of the
    /// level that the command leaves the session at.
    pub open spec fn submit(self, level: AccessLevel, hostname: Seq<char>) -> Screen {
        let command = self.submitted(level, hostname);
        let base = if command is Clear {
            Screen::blank()
        } else {
            self
        };
        base.new_line().write_str(level.reply(command)).new_line().write_str(
            prompt(hostname, level.after(command)),
        )
    }

    /// The screen after one character is typed at `level`, behind a prompt
    /// of `prompt_length` characters. A backspace erases the last
    /// character. A question mark is not written: it appends the help
    /// listing for the line typed so far. Any other character is written.
    pub open spec fn key(self, ch: char, level: AccessLevel, prompt_length: int) -> Screen {
        if ch == BACKSPACE {
            self.erase_last()
        } else if ch == HELP_KEY {
            self.write_str(listing(level, self.current_line(prompt_length)))
        } else {
            self.write(ch)
        }
    }

    /// The screen after the characters of `typed`, one after the other.
    pub open spec fn keys(self, typed: Seq<char>, level: AccessLevel, prompt_length: int) -> Screen
        decreases typed.len(),
    {
        if typed.len() == 0 {
            self
        } else {
            self.keys(typed.drop_last(), level, prompt_length).key(
                typed.last(),
                level,
                prompt_length,
            )
        }
    }
}

impl ShellData {
    /// Applies one typed character.
    pub fn key(&mut self, ch: char, access_level: AccessLevel, prompt_length: usize)
        ensures
            final(self)@ == old(self)@.key(ch, access_level, prompt_length as int),
            final(self)@.wf(),
    {
        if ch == BACKSPACE {
            self.pop();
        } else if ch == HELP_KEY {
            let line = self.current_line(prompt_length);
            let text = ShellCommands::describe_chars(access_level, &line);
            self.write_str(text.as_str());
        } else {
            self.write(ch);
        }
    }

    /// Applies the characters typed since the last tick, in the order in
    /// which they arrived.
    pub fn insert(&mut self, typed: &str, access_level: AccessLevel, prompt_length: usize)
        ensures
            final(self)@ == old(self)@.keys(typed@, access_level, prompt_length as int),
            final(self)@.wf(),
    {
        proof {
            use_type_invariant(&*self);
        }
        for ch in it: typed.chars()
            invariant
                it.seq() == typed@,
                self@ == old(self)@.keys(
                    typed@.take(it.index()),
                    access_level,
                    prompt_length as int,
                ),
                self@.wf(),
        {
            assert(typed@.take(it.index() + 1).drop_last() =~= typed@.take(it.index()));
            self.key(ch, access_level, prompt_length);
        }
        assert(typed@.take(typed@.len() as int) =~= typed@);
    }
}

impl ShellCommands {
    /// Submits the line being typed: parses it, executes the command at
    /// the session's privilege level, and prints the reply and a fresh
    /// prompt.
    pub fn process(access_level: &mut AccessLevel, shell_data: &mut ShellData, hostname: &Hostname)
        ensures
            *final(access_level) == old(access_level).after(
                old(shell_data)@.submitted(*old(access_level), hostname@),
            ),
            final(shell_data)@ == old(shell_data)@.submit(*old(access_level), hostname@),
            final(shell_data)@.wf(),
    {
        let prompt_length = hostname.prompt(*access_level).as_str().unicode_len();
        let line = shell_data.current_line(prompt_length);
        let command = ShellCommands::parse_chars(&line);
        let outcome = command.execute(*access_level);
        if outcome.clear_screen {
            shell_data.clear();
        }
        *access_level = outcome.access_level;
        shell_data.advance_to_new_line();
        shell_data.write_str(outcome.output.as_str());
        shell_data.advance_to_new_line();
        shell_data.write_str(hostname.prompt(*access_level).as_str());
    }
}

} // verus!
