use vstd::prelude::*;

use crate::text::{joined, joined3};

verus! {

/// What can go wrong in the terminal, by the part in which it went wrong.
#[derive(Debug, Clone)]
pub enum CockpitError {
    Pty(String),
    Parse(String),
    Render(String),
    Metal(String),
    Glyph(String),
    Config(String),
    Io { path: String, source: String },
    Session(String),
    Sidebar(String),
}

pub type Result<T> = std::result::Result<T, CockpitError>;

impl CockpitError {
    /// The message shown to the user.
    pub open spec fn text(&self) -> Seq<char> {
        match self {
            CockpitError::Pty(m) => "PTY error: "@ + m@,
            CockpitError::Parse(m) => "Parse error: "@ + m@,
            CockpitError::Render(m) => "Render error: "@ + m@,
            CockpitError::Metal(m) => "Metal error: "@ + m@,
            CockpitError::Glyph(m) => "Glyph error: "@ + m@,
            CockpitError::Config(m) => "Config error: "@ + m@,
            CockpitError::Io { path, source } => "I/O error at "@ + path@ + ": "@ + source@,
            CockpitError::Session(m) => "Session error: "@ + m@,
            CockpitError::Sidebar(m) => "Sidebar error: "@ + m@,
        }
    }

    /// The error as text.
    pub fn message(&self) -> (s: String)
        ensures
            s@ == self.text(),
    {
        match self {
            CockpitError::Pty(m) => joined("PTY error: ", m),
            CockpitError::Parse(m) => joined("Parse error: ", m),
            CockpitError::Render(m) => joined("Render error: ", m),
            CockpitError::Metal(m) => joined("Metal error: ", m),
            CockpitError::Glyph(m) => joined("Glyph error: ", m),
            CockpitError::Config(m) => joined("Config error: ", m),
            CockpitError::Io { path, source } => joined(
                &joined3("I/O error at ", path, ": "),
                source,
            ),
            CockpitError::Session(m) => joined("Session error: ", m),
            CockpitError::Sidebar(m) => joined("Sidebar error: ", m),
        }
    }
}

/// A message says in which part something went wrong, and then the reason in its own words.
pub proof fn messages_name_the_part_and_the_reason(reason: String, place: String)
    ensures
        CockpitError::Pty(reason).text() == "PTY error: "@ + reason@,
        CockpitError::Parse(reason).text() == "Parse error: "@ + reason@,
        CockpitError::Render(reason).text() == "Render error: "@ + reason@,
        CockpitError::Metal(reason).text() == "Metal error: "@ + reason@,
        CockpitError::Glyph(reason).text() == "Glyph error: "@ + reason@,
        CockpitError::Config(reason).text() == "Config error: "@ + reason@,
        CockpitError::Session(reason).text() == "Session error: "@ + reason@,
        CockpitError::Sidebar(reason).text() == "Sidebar error: "@ + reason@,
        (CockpitError::Io { path: place, source: reason }).text() == "I/O error at "@ + place@
            + ": "@ + reason@,
{
}

} // verus!
