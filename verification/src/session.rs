//! A shell session: a hostname, a privilege level and a screen.

use crate::command::{AccessLevel, ShellCommands};
use crate::interpreter::{prompt, Hostname};
use crate::screen::{Screen, ShellData};
use vstd::prelude::*;
use vstd::string::{StrSliceExecFns, StringExecFns};

verus! {

/// A session, as a mathematical value.
#[verifier::ext_equal]
pub struct Session {
    pub hostname: Seq<char>,
    pub access_level: AccessLevel,
    pub screen: Screen,
    pub selected: bool,
}

impl Session {
    /// A session as it starts: at user level, with an empty screen, not
    /// selected.
    pub open spec fn start(hostname: Seq<char>) -> Session {
        Session {
            hostname,
            access_level: AccessLevel::User,
            screen: Screen::blank(),
            selected: false,
        }
    }

    /// The session after one tick of input: first the typed characters in
    /// order, then, if Enter was pressed, the submission of the line. When
    /// no Enter was pressed the level stays as it is.
    pub open spec fn tick(self, typed: Seq<char>, enter_pressed: bool) -> Session {
        let level = self.access_level;
        let prompt_length = prompt(self.hostname, level).len() as int;
        let typed_screen = self.screen.keys(typed, level, prompt_length);
        if enter_pressed {
            Session {
                access_level: level.after(typed_screen.submitted(level, self.hostname)),
                screen: typed_screen.submit(level, self.hostname),
                ..self
            }
        } else {
            Session { screen: typed_screen, ..self }
        }
    }
}

/// A shell session.
pub struct ShellModel {
    pub hostname: Hostname,
    pub shell_data: ShellData,
    pub access_level: AccessLevel,
    /// Whether this session is the one that is displayed and that receives
    /// the input. A registry of sessions keeps the flag exclusive.
    pub selected: bool,
}

impl View for ShellModel {
    type V = Session;

    open spec fn view(&self) -> Session {
        Session {
            hostname: self.hostname@,
            access_level: self.access_level,
            screen: self.shell_data@,
            selected: self.selected,
        }
    }
}

impl ShellModel {
    /// A new session on the given host.
    pub fn new(hostname: &str) -> (session: ShellModel)
        ensures
            session@ == Session::start(hostname@),
            session@.screen.wf(),
    {
        ShellModel {
            hostname: Hostname(String::from_str(hostname)),
            shell_data: ShellData::new(),
            access_level: AccessLevel::User,
            selected: false,
        }
    }

    /// The prompt that the session shows at its present level.
    pub fn prompt(&self) -> (text: String)
        ensures
            text@ == prompt(self@.hostname, self@.access_level),
    {
        self.hostname.prompt(self.access_level)
    }

    /// Applies the input of one tick: the characters typed since the last
    /// tick, in order, and then the Enter key if it was pressed.
    pub fn handle_input(&mut self, typed: &str, enter_pressed: bool)
        ensures
            final(self)@ == old(self)@.tick(typed@, enter_pressed),
            final(self)@.screen.wf(),
    {
        let prompt_length = self.prompt().as_str().unicode_len();
        self.shell_data.insert(typed, self.access_level, prompt_length);
        if enter_pressed {
            ShellCommands::process(&mut self.access_level, &mut self.shell_data, &self.hostname);
        }
    }
}

} // verus!
