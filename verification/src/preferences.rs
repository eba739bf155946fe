//! What a user chooses once: credentials to keep and how the window behaves.
//!
//! How the choices are protected on disk is the application's business. Here stand the choices
//! themselves, their defaults, and what the registration for starting with the system means.

use vstd::prelude::*;

use crate::text;

verus! {

/// The directory below the user's local data that the client owns.
pub const DATA_DIRECTORY: &'static str = "DrComCampusRust";

/// The file that keeps the choices.
pub const FILE_NAME: &'static str = "preferences.dat";

/// The name under which the client is registered to start with the system.
pub const AUTOSTART_NAME: &'static str = "DrComCampusRust";

/// Where the client is registered to start with the system.
pub const AUTOSTART_KEY: &'static str = "Software\\Microsoft\\Windows\\CurrentVersion\\Run";

/// The status code of a registry value that does not exist.
pub const VALUE_MISSING: u32 = 2;

#[derive(Debug, Clone, PartialEq, Eq)]
pub struct Preferences {
    pub username: String,
    pub password: String,
    pub auto_login: bool,
    pub auto_reconnect: bool,
    /// With it on, closing the window hides it and a successful login tucks it away; with it off,
    /// closing the window ends the program.
    pub minimize_to_tray: bool,
}

impl Default for Preferences {
    fn default() -> (preferences: Self)
        ensures
            preferences.username@ == Seq::<char>::empty(),
            preferences.password@ == Seq::<char>::empty(),
            !preferences.auto_login,
            preferences.auto_reconnect,
            preferences.minimize_to_tray,
    {
        Preferences {
            username: String::new(),
            password: String::new(),
            auto_login: false,
            auto_reconnect: true,
            minimize_to_tray: true,
        }
    }
}

/// What came of opening the file that keeps the choices.
#[derive(Debug, Clone, PartialEq, Eq)]
pub enum Stored {
    /// There is no such file.
    Missing,
    /// Its contents, decrypted and decoded.
    Opened(Preferences),
    /// It could not be read, decrypted or decoded, with the system's words.
    Failed(String),
}

/// The choices to start with. Without a file they are the defaults; a file that cannot be opened
/// is an error and never silently replaced by them.
pub fn load(stored: Stored) -> (result: Result<Preferences, String>)
    ensures
        match stored {
            Stored::Missing => result matches Ok(preferences) && {
                &&& preferences.username@ == Seq::<char>::empty()
                &&& preferences.password@ == Seq::<char>::empty()
                &&& !preferences.auto_login
                &&& preferences.auto_reconnect
                &&& preferences.minimize_to_tray
            },
            Stored::Opened(preferences) => result == Ok::<Preferences, String>(preferences),
            Stored::Failed(reason) => result == Err::<Preferences, String>(reason),
        },
{
    match stored {
        Stored::Missing => Ok(Preferences::default()),
        Stored::Opened(preferences) => Ok(preferences),
        Stored::Failed(reason) => Err(reason),
    }
}

/// The command that starts the client: its path in quotes.
pub open spec fn command_of(executable: Seq<char>) -> Seq<char> {
    "\""@ + executable + "\""@
}

/// The command that starts the client.
pub fn autostart_command(executable: &str) -> (command: String)
    ensures
        command@ == command_of(executable@),
{
    let mut command = "\"".to_string();
    command.append(executable);
    command.append("\"");
    command
}

/// Whether the client is registered to start with the system, given the status code of the query,
/// the registered command and the client's own path. Another path is no registration.
pub fn autostart_enabled(code: u32, registered: &str, executable: &str) -> (enabled: Result<
    bool,
    u32,
>)
    ensures
        enabled == (if code == VALUE_MISSING {
            Ok::<bool, u32>(false)
        } else if code != 0 {
            Err::<bool, u32>(code)
        } else {
            Ok::<bool, u32>(
                text::ascii_lowered(registered@) == text::ascii_lowered(command_of(executable@)),
            )
        }),
{
    if code == VALUE_MISSING {
        return Ok(false);
    }
    if code != 0 {
        return Err(code);
    }
    let found = text::lower_ascii(&text::chars_of(registered));
    let own = text::lower_ascii(&text::chars_of(&autostart_command(executable)));
    Ok(text::same(&found, &own))
}

/// What the status code of a change means: to remove what is not there succeeds.
pub fn autostart_changed(enable: bool, code: u32) -> (result: Result<(), u32>)
    ensures
        result == (if code == 0 || (!enable && code == VALUE_MISSING) {
            Ok::<(), u32>(())
        } else {
            Err::<(), u32>(code)
        }),
{
    if code == 0 || (!enable && code == VALUE_MISSING) {
        Ok(())
    } else {
        Err(code)
    }
}

/// A text as the system wants it: UTF-16 code units, then a zero.
pub fn wide(value: &str) -> (units: Vec<u16>)
    ensures
        units@ == text::utf16(value@).push(0),
{
    let mut units = text::utf16_units(value);
    units.push(0);
    units
}

/// The command that starts the client is its path between two quotes.
pub proof fn law_the_path_stands_in_quotes(executable: Seq<char>)
    ensures
        command_of(executable).len() == executable.len() + 2,
        command_of(executable)[0] == '"',
        command_of(executable).last() == '"',
        command_of(executable).subrange(1, executable.len() as int + 1) == executable,
        VALUE_MISSING == 2,
{
    reveal_strlit("\"");
    assert(command_of(executable).subrange(1, executable.len() as int + 1) =~= executable);
}

} // verus!
