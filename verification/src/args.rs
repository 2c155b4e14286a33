//! The command line: what the user asks for, and in which language.

use vstd::prelude::*;
use crate::error::ArgError;
use crate::run::Language;
use crate::text::{optional_text, str_eq, texts};

verus! {

/// The text that `str::to_lowercase` makes of a text.
pub uninterp spec fn lowercase(s: Seq<char>) -> Seq<char>;

/// `str::to_lowercase` returns the lowercase equivalent of the string as a
/// new string. What that is depends on the characters alone.
pub assume_specification[ str::to_lowercase ](s: &str) -> (r: String)
    ensures
        r@ == lowercase(s@),
;

/// What the user asks for.
#[derive(Debug)]
pub enum Command {
    /// Ask for the settings and keep them.
    Setup,
    /// Keep another session cookie.
    Cookie(String),
    /// Run the solution of a year and a day, in a language where one is
    /// named.
    Run { year: String, day: String, language: Option<String> },
}

/// A command as texts.
pub enum CommandView {
    Setup,
    Cookie(Seq<char>),
    Run { year: Seq<char>, day: Seq<char>, language: Option<Seq<char>> },
}

impl View for Command {
    type V = CommandView;

    open spec fn view(&self) -> CommandView {
        match self {
            Command::Setup => CommandView::Setup,
            Command::Cookie(cookie) => CommandView::Cookie(cookie@),
            Command::Run { year, day, language } => CommandView::Run {
                year: year@,
                day: day@,
                language: optional_text(*language),
            },
        }
    }
}

/// What a command line asks for. Its first word is the program's own name.
/// One word more is `setup`; two are `cookie` and a cookie, or a year and a
/// day; three are a year, a day and a language.
pub open spec fn command_of(args: Seq<Seq<char>>) -> Result<CommandView, ArgError> {
    if args.len() == 2 {
        if args[1] == "setup"@ {
            Ok(CommandView::Setup)
        } else {
            Err(ArgError::InvalidArgs)
        }
    } else if args.len() == 3 {
        if args[1] == "cookie"@ {
            Ok(CommandView::Cookie(args[2]))
        } else {
            Ok(CommandView::Run { year: args[1], day: args[2], language: None })
        }
    } else if args.len() == 4 {
        Ok(CommandView::Run { year: args[1], day: args[2], language: Some(args[3]) })
    } else {
        Err(ArgError::WrongCount)
    }
}

/// A command, or why there is none, as texts.
pub open spec fn command_view(r: Result<Command, ArgError>) -> Result<CommandView, ArgError> {
    match r {
        Ok(c) => Ok(c@),
        Err(e) => Err(e),
    }
}

/// Reads the command line, the program's own name included.
pub fn parse_command(args: Vec<String>) -> (r: Result<Command, ArgError>)
    ensures
        command_view(r) == command_of(texts(args@)),
{
    let mut args = args;
    let ghost given = texts(args@);
    if args.len() == 2 {
        if str_eq(args[1].as_str(), "setup") {
            Ok(Command::Setup)
        } else {
            Err(ArgError::InvalidArgs)
        }
    } else if args.len() == 3 {
        let second = args.pop().unwrap();
        let first = args.pop().unwrap();
        assert(first@ == given[1] && second@ == given[2]);
        if str_eq(first.as_str(), "cookie") {
            Ok(Command::Cookie(second))
        } else {
            Ok(Command::Run { year: first, day: second, language: None })
        }
    } else if args.len() == 4 {
        let language = args.pop().unwrap();
        let day = args.pop().unwrap();
        let year = args.pop().unwrap();
        assert(year@ == given[1] && day@ == given[2] && language@ == given[3]);
        Ok(Command::Run { year, day, language: Some(language) })
    } else {
        Err(ArgError::WrongCount)
    }
}

/// The language to run, and whether it was named in a way that is known.
#[derive(Clone, Copy, Debug, PartialEq, Eq, Structural)]
pub struct Selection {
    pub language: Language,
    /// `false` where the language was chosen for want of a known name.
    pub recognized: bool,
}

/// The language that a word of the command line names, once in lower case.
pub open spec fn language_named(tag: Seq<char>) -> Option<Language> {
    if tag == "python"@ || tag == "py"@ || tag == "p"@ {
        Some(Language::Python)
    } else if tag == "rust"@ || tag == "r"@ {
        Some(Language::Rust)
    } else {
        None
    }
}

/// The language that the settings name as the default.
pub open spec fn default_language(default: Seq<char>) -> Option<Language> {
    if default == "python"@ {
        Some(Language::Python)
    } else if default == "rust"@ {
        Some(Language::Rust)
    } else {
        None
    }
}

/// The selection that a found language, or none, comes to: without one the
/// interpreted language is run, and marked as not recognized.
pub open spec fn selection_of(found: Option<Language>) -> Selection {
    match found {
        Some(language) => Selection { language, recognized: true },
        None => Selection { language: Language::Python, recognized: false },
    }
}

/// The language to run: the one that the command line names, in whatever
/// case, or the default of the settings where it names none.
pub open spec fn selected(asked: Option<Seq<char>>, default: Seq<char>) -> Selection {
    match asked {
        Some(tag) => selection_of(language_named(lowercase(tag))),
        None => selection_of(default_language(default)),
    }
}

/// The language that `tag` names, for a tag in lower case.
pub fn language_from_tag(tag: &str) -> (r: Option<Language>)
    ensures
        r == language_named(tag@),
{
    if str_eq(tag, "python") || str_eq(tag, "py") || str_eq(tag, "p") {
        Some(Language::Python)
    } else if str_eq(tag, "rust") || str_eq(tag, "r") {
        Some(Language::Rust)
    } else {
        None
    }
}

/// The language that the settings name as the default.
pub fn language_from_default(default: &str) -> (r: Option<Language>)
    ensures
        r == default_language(default@),
{
    if str_eq(default, "python") {
        Some(Language::Python)
    } else if str_eq(default, "rust") {
        Some(Language::Rust)
    } else {
        None
    }
}

/// Chooses the language to run from the word of the command line that names
/// one, if there is such a word, and the default of the settings.
pub fn select_language(asked: &Option<String>, default: &str) -> (r: Selection)
    ensures
        r == selected(optional_text(*asked), default@),
{
    let found = match asked {
        Some(tag) => {
            let lowered = tag.as_str().to_lowercase();
            language_from_tag(lowered.as_str())
        },
        None => language_from_default(default),
    };
    match found {
        Some(language) => Selection { language, recognized: true },
        None => Selection { language: Language::Python, recognized: false },
    }
}

} // verus!
