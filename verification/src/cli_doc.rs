//! The reference page of a command line, written as Markdown.
//!
//! The page opens with the usage line in a code block. A section follows for
//! every option: a heading with its short and long name, marks for the version
//! it came with and for its state, a mark that says whether it is a flag or
//! what its default is, and its help text.

use vstd::prelude::*;

use crate::text::{push_char, trim, trim_start_matches, trimmed, without_leading};

verus! {

/// What the command line does when it meets an option.
#[derive(Debug, Clone, Copy, PartialEq, Eq, Structural)]
pub enum OptionAction {
    /// Keeps the value given.
    SetValue,
    /// Adds the value given to those before it.
    Append,
    /// Sets the option to true.
    SetTrue,
    /// Sets the option to false.
    SetFalse,
    /// Counts how often the option is given.
    Count,
    /// Prints the help.
    Help,
    /// Prints the short help.
    HelpShort,
    /// Prints the long help.
    HelpLong,
    /// Prints the version.
    Version,
}

impl OptionAction {
    /// Whether the page marks an option with this action as a flag: one that
    /// sets a truth value, the help or the version.
    pub open spec fn spec_is_flag(&self) -> bool {
        *self == OptionAction::SetTrue || *self == OptionAction::SetFalse || *self
            == OptionAction::Help || *self == OptionAction::Version
    }

    /// Whether the page marks an option with this action as a flag.
    #[verifier::when_used_as_spec(spec_is_flag)]
    pub fn is_flag(&self) -> (flag: bool)
        ensures
            flag == self.spec_is_flag(),
    {
        match self {
            OptionAction::SetTrue
            | OptionAction::SetFalse
            | OptionAction::Help
            | OptionAction::Version => true,
            _ => false,
        }
    }
}

/// What the command line knows of one option.
pub struct OptionDoc {
    /// The name by which the command line parser knows the option.
    pub id: String,
    /// The long name, without its two dashes.
    pub long: Option<String>,
    /// The short name, without its dash.
    pub short: Option<char>,
    /// The version that brought the option, where that is recorded.
    pub minimum_version: Option<String>,
    /// Whether the option is marked as experimental.
    pub experimental: bool,
    /// What the option does.
    pub action: OptionAction,
    /// The values that the option has when it is not given.
    pub default_values: Vec<String>,
    /// The long help text.
    pub long_help: Option<String>,
    /// The help text.
    pub help: Option<String>,
}

/// Why the page could not be written.
#[derive(Debug, PartialEq, Eq)]
pub enum DocError {
    /// The option with this id has no long name.
    NoLongName(String),
    /// The option with this id has no short name.
    NoShortName(String),
}

impl DocError {
    /// What the message says.
    pub open spec fn message_text(self) -> Seq<char> {
        match self {
            DocError::NoLongName(id) => "Failed to get long name of argument with id "@ + id@,
            DocError::NoShortName(id) => "Failed to get short name for argument with id "@ + id@,
        }
    }

    /// The error as a sentence.
    pub fn message(&self) -> (text: String)
        ensures
            text@ == self.message_text(),
    {
        match self {
            DocError::NoLongName(id) => {
                let mut text = String::from_str("Failed to get long name of argument with id ");
                text.append(id.as_str());
                text
            },
            DocError::NoShortName(id) => {
                let mut text = String::from_str("Failed to get short name for argument with id ");
                text.append(id.as_str());
                text
            },
        }
    }
}

impl OptionDoc {
    /// Whether the option has both names, as every option on the page must.
    pub open spec fn is_named(self) -> bool {
        self.long is Some && self.short is Some
    }

    /// The error that an option without a name gives: the long name is looked
    /// for first.
    pub open spec fn fault(self) -> DocError {
        if self.long is None {
            DocError::NoLongName(self.id)
        } else {
            DocError::NoShortName(self.id)
        }
    }

    /// The heading of the section.
    pub open spec fn heading(self) -> Seq<char> {
        "\n### `-"@ + seq![self.short->0] + ", --"@ + self.long->0@ + "`\n\n"@
    }

    /// The marks for the version that brought the option and for an
    /// experimental option.
    pub open spec fn marks(self) -> Seq<char> {
        (if self.minimum_version is Some {
            "<!-- md:version "@ + self.minimum_version->0@ + " -->\n"@
        } else {
            Seq::<char>::empty()
        }) + (if self.experimental {
            "<!-- md:flag experimental -->\n"@
        } else {
            Seq::<char>::empty()
        })
    }

    /// The line that says whether the option is a flag or what its default is:
    /// the first of its default values. For an option that is no flag and has
    /// no default it is an empty line.
    pub open spec fn value_line(self) -> Seq<char> {
        if self.action.is_flag() {
            "<!-- md:flag -->\n\n"@
        } else if self.default_values.len() > 0 {
            "<!-- md:default "@ + self.default_values[0]@ + " -->\n\n"@
        } else {
            "\n"@
        }
    }

    /// The text that the page shows for the option: the long help where there
    /// is one, else the help.
    pub open spec fn shown_help(self) -> Option<String> {
        if self.long_help is Some {
            self.long_help
        } else {
            self.help
        }
    }

    /// The help text, trimmed and on a line of its own.
    pub open spec fn help_line(self) -> Seq<char> {
        if self.shown_help() is Some {
            trimmed(self.shown_help()->0@) + "\n"@
        } else {
            Seq::<char>::empty()
        }
    }

    /// The whole section of the option.
    pub open spec fn section(self) -> Seq<char> {
        self.heading() + self.marks() + self.value_line() + self.help_line()
    }

    /// Writes the heading at the end of `out`.
    fn write_heading(&self, out: &mut String)
        requires
            self.is_named(),
        ensures
            final(out)@ == old(out)@ + self.heading(),
    {
        let ghost before = out@;
        match (&self.long, self.short) {
            (Some(long), Some(short)) => {
                out.append("\n### `-");
                push_char(out, short);
                out.append(", --");
                out.append(long.as_str());
                out.append("`\n\n");
            },
            _ => {},
        }
        assert(out@ =~= before + self.heading());
    }

    /// Writes the marks at the end of `out`.
    fn write_marks(&self, out: &mut String)
        ensures
            final(out)@ == old(out)@ + self.marks(),
    {
        let ghost before = out@;
        match &self.minimum_version {
            Some(version) => {
                out.append("<!-- md:version ");
                out.append(version.as_str());
                out.append(" -->\n");
            },
            None => {},
        }
        if self.experimental {
            out.append("<!-- md:flag experimental -->\n");
        }
        assert(out@ =~= before + self.marks());
    }

    /// Writes the line on the option's value at the end of `out`.
    fn write_value_line(&self, out: &mut String)
        ensures
            final(out)@ == old(out)@ + self.value_line(),
    {
        let ghost before = out@;
        if self.action.is_flag() {
            out.append("<!-- md:flag -->\n\n");
        } else if self.default_values.len() > 0 {
            out.append("<!-- md:default ");
            out.append(self.default_values[0].as_str());
            out.append(" -->\n\n");
        } else {
            out.append("\n");
        }
        assert(out@ =~= before + self.value_line());
    }

    /// Writes the help text at the end of `out`.
    fn write_help_line(&self, out: &mut String)
        ensures
            final(out)@ == old(out)@ + self.help_line(),
    {
        let ghost before = out@;
        let shown = if self.long_help.is_some() {
            &self.long_help
        } else {
            &self.help
        };
        match shown {
            Some(help) => {
                out.append(trim(help.as_str()));
                out.append("\n");
            },
            None => {},
        }
        assert(out@ =~= before + self.help_line());
    }

    /// Writes the section of the option at the end of `out`.
    pub fn write_section(&self, out: &mut String)
        requires
            self.is_named(),
        ensures
            final(out)@ == old(out)@ + self.section(),
    {
        let ghost before = out@;
        self.write_heading(out);
        self.write_marks(out);
        self.write_value_line(out);
        self.write_help_line(out);
        assert(out@ =~= before + self.section());
    }
}

/// The sections of `options`, one after another.
pub open spec fn sections(options: Seq<OptionDoc>) -> Seq<char>
    decreases options.len(),
{
    if options.len() == 0 {
        Seq::<char>::empty()
    } else {
        sections(options.drop_last()) + options.last().section()
    }
}

/// The top of the page: the usage line, without the word that introduces it,
/// in a code block, and the heading of the list of options.
pub open spec fn page_top(usage: Seq<char>) -> Seq<char> {
    "```text title=\"Usage\"\n"@ + without_leading(usage, "Usage: "@) + "\n```\n"@
        + "\n## Options\n"@
}

/// The whole page.
pub open spec fn page(usage: Seq<char>, options: Seq<OptionDoc>) -> Seq<char> {
    page_top(usage) + sections(options)
}

/// Writes the page for a command line with this usage line and these options.
///
/// Every option needs a long and a short name. The first option that lacks
/// one ends the writing with an error that names it.
pub fn generate_cli_doc(usage: &str, options: &Vec<OptionDoc>) -> (result: Result<
    String,
    DocError,
>)
    ensures
        result is Ok <==> forall|i: int| 0 <= i < options.len() ==> options[i].is_named(),
        result matches Ok(out) ==> out@ == page(usage@, options@),
        result matches Err(e) ==> exists|i: int|
            0 <= i < options.len() && !(#[trigger] options[i]).is_named() && e
                == options[i].fault() && (forall|j: int| 0 <= j < i ==> options[j].is_named()),
{
    let mut out = String::new();
    out.append("```text title=\"Usage\"\n");
    proof {
        reveal_strlit("Usage: ");
    }
    out.append(trim_start_matches(usage, "Usage: "));
    out.append("\n```\n");
    out.append("\n## Options\n");
    assert(out@ =~= page_top(usage@));
    let mut i: usize = 0;
    while i < options.len()
        invariant
            i <= options.len(),
            out@ == page_top(usage@) + sections(options@.take(i as int)),
            forall|j: int| 0 <= j < i ==> options[j].is_named(),
        decreases options.len() - i,
    {
        let option = &options[i];
        if option.long.is_none() {
            return Err(DocError::NoLongName(option.id.clone()));
        }
        if option.short.is_none() {
            return Err(DocError::NoShortName(option.id.clone()));
        }
        option.write_section(&mut out);
        proof {
            assert(options@.take(i + 1).drop_last() =~= options@.take(i as int));
            assert(out@ =~= page_top(usage@) + sections(options@.take(i + 1)));
        }
        i = i + 1;
    }
    proof {
        assert(options@.take(i as int) =~= options@);
    }
    Ok(out)
}

} // verus!
