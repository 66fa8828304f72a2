//! Commands: the grammar of a submitted line, the privilege rules that
//! decide what a command does, and the help listing.

use crate::text::{
    contains, lemma_contains_empty, same_text, split_whitespace, text_contains, to_chars,
    to_string, tokens, word_views,
};
use vstd::prelude::*;
use vstd::string::StringExecFns;

verus! {

/// The privilege level of a session.
#[derive(Clone, Copy, Debug, PartialEq, Eq, Hash, Structural)]
pub enum AccessLevel {
    User,
    Admin,
}

impl Default for AccessLevel {
    fn default() -> (level: AccessLevel)
        ensures
            level == AccessLevel::User,
    {
        AccessLevel::User
    }
}

/// A property that `show` can display. No property is defined yet, so no
/// value of this type can be built: every name fails to resolve.
#[derive(Debug, PartialEq, Eq)]
pub struct ShellProperty {
    name: String,
}

impl View for ShellProperty {
    type V = Seq<char>;

    closed spec fn view(&self) -> Seq<char> {
        self.name@
    }
}

impl ShellProperty {
    /// Resolves the name of a property. Every name is unknown.
    pub fn try_from(value: &str) -> (property: Result<ShellProperty, String>)
        ensures
            match resolve_property(value@) {
                Some(name) => property matches Ok(found) && found@ == name,
                None => property matches Err(reason) && reason@ == "unknown property"@,
            },
    {
        Err(String::from_str("unknown property"))
    }
}

/// A command, as a mathematical value.
pub enum CommandView {
    Show(Seq<char>),
    Login,
    Logout,
    Clear,
    Update(Seq<char>),
    Save(Seq<char>, Seq<char>),
    Empty,
    Error(Seq<char>),
}

/// What a submitted line asks for.
#[derive(Debug, PartialEq, Eq)]
pub enum ShellCommands {
    Show(ShellProperty),
    Login,
    Logout,
    Clear,
    Update(String),
    Save(String, String),
    Empty,
    Error(String),
}

impl View for ShellCommands {
    type V = CommandView;

    open spec fn view(&self) -> CommandView {
        match self {
            ShellCommands::Show(property) => CommandView::Show(property@),
            ShellCommands::Login => CommandView::Login,
            ShellCommands::Logout => CommandView::Logout,
            ShellCommands::Clear => CommandView::Clear,
            ShellCommands::Update(version) => CommandView::Update(version@),
            ShellCommands::Save(in_file, out_file) => CommandView::Save(in_file@, out_file@),
            ShellCommands::Empty => CommandView::Empty,
            ShellCommands::Error(reason) => CommandView::Error(reason@),
        }
    }
}

/// The property that a name stands for. No property is defined yet, so
/// no name resolves.
pub open spec fn resolve_property(name: Seq<char>) -> Option<Seq<char>> {
    None
}

/// The command that a sequence of words stands for. The first word names
/// the command, exactly and with case; the words after it are its
/// arguments, and those that the command does not take are ignored.
pub open spec fn parse_words(words: Seq<Seq<char>>) -> CommandView {
    if words.len() == 0 {
        CommandView::Empty
    } else if words[0] == "clear"@ {
        CommandView::Clear
    } else if words[0] == "login"@ {
        CommandView::Login
    } else if words[0] == "logout"@ {
        CommandView::Logout
    } else if words[0] == "show"@ {
        if words.len() < 2 {
            CommandView::Error("not enough arguments, expected 1"@)
        } else {
            match resolve_property(words[1]) {
                Some(property) => CommandView::Show(property),
                None => CommandView::Error("unknown property"@),
            }
        }
    } else if words[0] == "update"@ {
        if words.len() < 2 {
            CommandView::Error("not enough arguments, expected 1"@)
        } else {
            CommandView::Update(words[1])
        }
    } else if words[0] == "save"@ {
        if words.len() < 3 {
            CommandView::Error("not enough arguments, expected 2"@)
        } else {
            CommandView::Save(words[1], words[2])
        }
    } else {
        CommandView::Error("unknown command '"@ + words[0] + "'"@)
    }
}

/// The command that a line stands for: that of its words.
pub open spec fn parse_line(line: Seq<char>) -> CommandView {
    parse_words(tokens(line))
}

/// As long as no property is defined, no line asks to show one: `show`
/// with a name is an error, never a command.
pub proof fn lemma_show_fails_closed(line: Seq<char>)
    ensures
        !(parse_line(line) is Show),
{
}

impl ShellCommands {
    /// Parses the characters of a submitted line.
    pub fn parse_chars(line: &Vec<char>) -> (command: ShellCommands)
        ensures
            command@ == parse_line(line@),
    {
        let words = split_whitespace(line);
        let ghost views = word_views(words@);
        if words.len() == 0 {
            return ShellCommands::Empty;
        }
        assert(views[0] == words@[0]@);
        let first = &words[0];
        if same_text(first, "clear") {
            ShellCommands::Clear
        } else if same_text(first, "login") {
            ShellCommands::Login
        } else if same_text(first, "logout") {
            ShellCommands::Logout
        } else if same_text(first, "show") {
            if words.len() < 2 {
                ShellCommands::Error(String::from_str("not enough arguments, expected 1"))
            } else {
                let name = to_string(&words[1]);
                match ShellProperty::try_from(name.as_str()) {
                    Ok(property) => ShellCommands::Show(property),
                    Err(reason) => ShellCommands::Error(reason),
                }
            }
        } else if same_text(first, "update") {
            if words.len() < 2 {
                ShellCommands::Error(String::from_str("not enough arguments, expected 1"))
            } else {
                assert(views[1] == words@[1]@);
                ShellCommands::Update(to_string(&words[1]))
            }
        } else if same_text(first, "save") {
            if words.len() < 3 {
                ShellCommands::Error(String::from_str("not enough arguments, expected 2"))
            } else {
                assert(views[1] == words@[1]@);
                assert(views[2] == words@[2]@);
                ShellCommands::Save(to_string(&words[1]), to_string(&words[2]))
            }
        } else {
            let mut reason = String::from_str("unknown command '");
            reason.append(to_string(first).as_str());
            reason.append("'");
            ShellCommands::Error(reason)
        }
    }

    /// Parses a submitted line.
    pub fn parse(line: &str) -> (command: ShellCommands)
        ensures
            command@ == parse_line(line@),
    {
        let chars = to_chars(line);
        ShellCommands::parse_chars(&chars)
    }
}

/// What executing a command yields: the privilege level afterwards, the
/// line to print, and whether the screen is cleared first.
#[derive(Debug, PartialEq, Eq)]
pub struct Outcome {
    pub access_level: AccessLevel,
    pub output: String,
    pub clear_screen: bool,
}

impl AccessLevel {
    /// The level after a command. Only `login` as a user and `logout` as
    /// an administrator change it.
    pub open spec fn after(self, command: CommandView) -> AccessLevel {
        match (self, command) {
            (AccessLevel::User, CommandView::Login) => AccessLevel::Admin,
            (AccessLevel::Admin, CommandView::Logout) => AccessLevel::User,
            _ => self,
        }
    }

    /// Whether the level allows the command. What it does not allow is
    /// answered as if there were no such command.
    pub open spec fn permits(self, command: CommandView) -> bool {
        match command {
            CommandView::Login => self == AccessLevel::User,
            CommandView::Logout | CommandView::Update(_) | CommandView::Save(_, _) => self
                == AccessLevel::Admin,
            _ => true,
        }
    }

    /// The line printed in answer to a command.
    pub open spec fn reply(self, command: CommandView) -> Seq<char> {
        if !self.permits(command) {
            "command not found"@
        } else {
            match command {
                CommandView::Show(_) => "implement this please"@,
                CommandView::Login => "logged in"@,
                CommandView::Logout => "logged out"@,
                CommandView::Clear => Seq::empty(),
                CommandView::Update(version) => "updated to version "@ + version,
                CommandView::Save(in_file, out_file) => "saved '"@ + in_file + "' to '"@ + out_file
                    + "'"@,
                CommandView::Empty => Seq::empty(),
                CommandView::Error(reason) => "error: "@ + reason,
            }
        }
    }
}

/// The level changes only by a permitted `login` or `logout`; every other
/// command, and every command that the level does not permit, leaves it
/// as it is.
pub proof fn lemma_level_changes(level: AccessLevel, command: CommandView)
    ensures
        level.after(command) != level <==> level.permits(command) && (command is Login
            || command is Logout),
        command is Login && level.permits(command) ==> level.after(command) == AccessLevel::Admin,
        command is Logout && level.permits(command) ==> level.after(command) == AccessLevel::User,
{
}

impl ShellCommands {
    /// Executes the command at the given privilege level.
    pub fn execute(&self, access_level: AccessLevel) -> (outcome: Outcome)
        ensures
            outcome.access_level == access_level.after(self@),
            outcome.output@ == access_level.reply(self@),
            outcome.clear_screen == (self@ is Clear),
    {
        let is_admin = match access_level {
            AccessLevel::User => false,
            AccessLevel::Admin => true,
        };
        let denied = "command not found";
        match self {
            ShellCommands::Show(_property) => Outcome {
                access_level,
                output: String::from_str("implement this please"),
                clear_screen: false,
            },
            ShellCommands::Login => if is_admin {
                Outcome { access_level, output: String::from_str(denied), clear_screen: false }
            } else {
                Outcome {
                    access_level: AccessLevel::Admin,
                    output: String::from_str("logged in"),
                    clear_screen: false,
                }
            },
            ShellCommands::Logout => if is_admin {
                Outcome {
                    access_level: AccessLevel::User,
                    output: String::from_str("logged out"),
                    clear_screen: false,
                }
            } else {
                Outcome { access_level, output: String::from_str(denied), clear_screen: false }
            },
            ShellCommands::Clear => Outcome {
                access_level,
                output: String::new(),
                clear_screen: true,
            },
            ShellCommands::Update(version) => if is_admin {
                let mut output = String::from_str("updated to version ");
                output.append(version.as_str());
                Outcome { access_level, output, clear_screen: false }
            } else {
                Outcome { access_level, output: String::from_str(denied), clear_screen: false }
            },
            ShellCommands::Save(in_file, out_file) => if is_admin {
                let mut output = String::from_str("saved '");
                output.append(in_file.as_str());
                output.append("' to '");
                output.append(out_file.as_str());
                output.append("'");
                Outcome { access_level, output, clear_screen: false }
            } else {
                Outcome { access_level, output: String::from_str(denied), clear_screen: false }
            },
            ShellCommands::Empty => Outcome {
                access_level,
                output: String::new(),
                clear_screen: false,
            },
            ShellCommands::Error(reason) => {
                let mut output = String::from_str("error: ");
                output.append(reason.as_str());
                Outcome { access_level, output, clear_screen: false }
            },
        }
    }
}

/// The commands of a user, each with a note on its use.
pub const USER_LEVEL_COMMANDS: [(&'static str, &'static str); 3] = [
    ("login", "(elevates permissions if access card is valid)"),
    ("clear", "(clears the screen)"),
    ("show", "<property>"),
];

/// The commands of an administrator, each with a note on its use.
pub const ADMIN_LEVEL_COMMANDS: [(&'static str, &'static str); 5] = [
    ("update", "<version>"),
    ("save", "<in-file> <out-file>"),
    ("show", "<property>"),
    ("clear", "(clears the screen)"),
    ("logout", "(deelevates permissions)"),
];

/// What every help listing starts with.
pub const LISTING_HEADER: &'static str = "These are the available commands: \n- ";

/// What stands between two lines of a help listing.
pub const LISTING_SEPARATOR: &'static str = "\n- ";

/// The command table of a privilege level.
pub open spec fn command_table(level: AccessLevel) -> Seq<(&'static str, &'static str)> {
    match level {
        AccessLevel::User => USER_LEVEL_COMMANDS@,
        AccessLevel::Admin => ADMIN_LEVEL_COMMANDS@,
    }
}

/// The line of a help listing for one entry of a command table.
pub open spec fn entry_line(entry: (&'static str, &'static str)) -> Seq<char> {
    entry.0@ + " "@ + entry.1@
}

/// The lines for the entries of `table` whose name contains `query`, in
/// the order of the table.
pub open spec fn matching_lines(
    table: Seq<(&'static str, &'static str)>,
    query: Seq<char>,
) -> Seq<Seq<char>>
    decreases table.len(),
{
    if table.len() == 0 {
        Seq::empty()
    } else {
        let before = matching_lines(table.drop_last(), query);
        if contains(table.last().0@, query) {
            before.push(entry_line(table.last()))
        } else {
            before
        }
    }
}

/// The lines one after the other, with `separator` between every two.
pub open spec fn join(lines: Seq<Seq<char>>, separator: Seq<char>) -> Seq<char>
    decreases lines.len(),
{
    if lines.len() == 0 {
        Seq::empty()
    } else if lines.len() == 1 {
        lines[0]
    } else {
        join(lines.drop_last(), separator) + separator + lines.last()
    }
}

/// The help listing of a level for a query: the header, then one line for
/// each command of the level whose name contains the query.
pub open spec fn listing(level: AccessLevel, query: Seq<char>) -> Seq<char> {
    LISTING_HEADER@ + join(matching_lines(command_table(level), query), LISTING_SEPARATOR@)
}

/// With an empty query the listing has a line for every command of the
/// table, in the order of the table.
pub proof fn lemma_empty_query_lists_all(table: Seq<(&'static str, &'static str)>)
    ensures
        matching_lines(table, Seq::empty()).len() == table.len(),
        forall|i: int|
            0 <= i < table.len() ==> #[trigger] matching_lines(table, Seq::empty())[i]
                == entry_line(table[i]),
    decreases table.len(),
{
    if table.len() > 0 {
        lemma_empty_query_lists_all(table.drop_last());
        lemma_contains_empty(table.last().0@);
    }
}

fn append_lines(
    listing: &mut String,
    table: &[(&'static str, &'static str)],
    query: &Vec<char>,
)
    ensures
        final(listing)@ == old(listing)@ + join(
            matching_lines(table@, query@),
            LISTING_SEPARATOR@,
        ),
{
    let ghost header = listing@;
    let mut first = true;
    let mut i: usize = 0;
    assert(table@.take(0) =~= Seq::empty());
    assert(listing@ =~= header + Seq::<char>::empty());
    while i < table.len()
        invariant
            i <= table.len(),
            first == (matching_lines(table@.take(i as int), query@).len() == 0),
            listing@ == header + join(
                matching_lines(table@.take(i as int), query@),
                LISTING_SEPARATOR@,
            ),
        decreases table.len() - i,
    {
        let entry = table[i];
        let ghost before = matching_lines(table@.take(i as int), query@);
        assert(table@.take(i + 1).drop_last() =~= table@.take(i as int));
        let name = to_chars(entry.0);
        if text_contains(&name, query) {
            assert(before.push(entry_line(entry)).drop_last() =~= before);
            if !first {
                listing.append(LISTING_SEPARATOR);
            }
            listing.append(entry.0);
            listing.append(" ");
            listing.append(entry.1);
            first = false;
            assert(listing@ =~= header + join(
                before.push(entry_line(entry)),
                LISTING_SEPARATOR@,
            ));
        }
        i = i + 1;
    }
    assert(table@.take(table@.len() as int) =~= table@);
}

impl ShellCommands {
    /// The help listing: the commands of the given level whose name
    /// contains `query`, one per line behind a header.
    pub fn describe(access_level: AccessLevel, query: &str) -> (text: String)
        ensures
            text@ == listing(access_level, query@),
    {
        let query = to_chars(query);
        ShellCommands::describe_chars(access_level, &query)
    }

    /// The help listing for a query given as characters.
    pub fn describe_chars(access_level: AccessLevel, query: &Vec<char>) -> (text: String)
        ensures
            text@ == listing(access_level, query@),
    {
        let mut text = String::from_str(LISTING_HEADER);
        match access_level {
            AccessLevel::User => append_lines(
                &mut text,
                USER_LEVEL_COMMANDS.as_slice(),
                query,
            ),
            AccessLevel::Admin => append_lines(
                &mut text,
                ADMIN_LEVEL_COMMANDS.as_slice(),
                query,
            ),
        }
        text
    }
}

} // verus!
