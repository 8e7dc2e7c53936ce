//! The options of a run, read from a list of command-line words.

use vstd::prelude::*;
use crate::number::{parse_i32_text, read_i32};
use crate::pipeline::Settings;
use crate::text::same_text;

verus! {

/// Why a list of words does not make a run's options.
#[derive(Clone, Copy, PartialEq, Eq, Structural, Debug)]
pub enum ArgumentError {
    /// The value after `-r` is not a positive integer.
    InvalidRowLimit,
    /// The value after `-l` is not a non-negative integer.
    InvalidVarcharLength,
    /// No output directory was given.
    MissingOutput,
    /// No input file was given.
    MissingInput,
}

impl ArgumentError {
    pub fn message(&self) -> &'static str {
        match self {
            ArgumentError::InvalidRowLimit => "The maximum rows per query must be a positive integer.",
            ArgumentError::InvalidVarcharLength => "The varchar length must be a non-negative integer.",
            ArgumentError::MissingOutput => "Output directory is required.",
            ArgumentError::MissingInput => "Input file argument is required.",
        }
    }
}

/// The options of a run.
#[derive(Debug)]
pub struct Arguments {
    /// The map file to read.
    pub input: String,
    /// The directory that receives one output per table.
    pub output: String,
    /// The most rows per insert statement.
    pub maximum_rows: usize,
    /// The length of the text columns in the schema headers.
    pub varchar_length: u32,
    /// Whether plain insert statements are written in place of ones that skip
    /// rows whose key is taken.
    pub no_ignore: bool,
    /// Whether only the usage text was asked for.
    pub help: bool,
}

pub struct ArgumentsView {
    pub input: Seq<char>,
    pub output: Seq<char>,
    pub maximum_rows: usize,
    pub varchar_length: u32,
    pub no_ignore: bool,
    pub help: bool,
}

impl View for Arguments {
    type V = ArgumentsView;

    open spec fn view(&self) -> ArgumentsView {
        ArgumentsView {
            input: self.input@,
            output: self.output@,
            maximum_rows: self.maximum_rows,
            varchar_length: self.varchar_length,
            no_ignore: self.no_ignore,
            help: self.help,
        }
    }
}

pub open spec fn default_arguments() -> ArgumentsView {
    ArgumentsView {
        input: Seq::empty(),
        output: Seq::empty(),
        maximum_rows: 400,
        varchar_length: 255,
        no_ignore: false,
        help: false,
    }
}

/// The row limit that a word gives: a positive `i32`.
pub open spec fn read_row_limit(v: Seq<char>) -> Option<usize> {
    match read_i32(v) {
        Some(n) => if n >= 1 {
            Some(n as usize)
        } else {
            None
        },
        None => None,
    }
}

/// The text-column length that a word gives: a non-negative `i32`.
pub open spec fn read_varchar_length(v: Seq<char>) -> Option<u32> {
    match read_i32(v) {
        Some(n) => if n >= 0 {
            Some(n as u32)
        } else {
            None
        },
        None => None,
    }
}

/// What one word does, given the word before it: after `-i`, `-d`, `-r` or
/// `-l` it is that option's value; `-h` and `-g` are switches wherever they
/// stand.
pub open spec fn apply_word(a: ArgumentsView, prev: Seq<char>, word: Seq<char>) -> Result<
    ArgumentsView,
    ArgumentError,
> {
    let set = if prev == "-i"@ {
        Ok(ArgumentsView { input: word, ..a })
    } else if prev == "-d"@ {
        Ok(ArgumentsView { output: word, ..a })
    } else if prev == "-r"@ {
        match read_row_limit(word) {
            Some(n) => Ok(ArgumentsView { maximum_rows: n, ..a }),
            None => Err(ArgumentError::InvalidRowLimit),
        }
    } else if prev == "-l"@ {
        match read_varchar_length(word) {
            Some(n) => Ok(ArgumentsView { varchar_length: n, ..a }),
            None => Err(ArgumentError::InvalidVarcharLength),
        }
    } else if prev == "-h"@ {
        Ok(ArgumentsView { help: true, ..a })
    } else if prev == "-g"@ {
        Ok(ArgumentsView { no_ignore: true, ..a })
    } else {
        Ok(a)
    };
    match set {
        Err(e) => Err(e),
        Ok(b) => Ok(
            ArgumentsView {
                help: b.help || word == "-h"@,
                no_ignore: b.no_ignore || word == "-g"@,
                ..b
            },
        ),
    }
}

/// The words read in turn from the defaults.
pub open spec fn scan_words(words: Seq<Seq<char>>) -> Result<ArgumentsView, ArgumentError>
    decreases words.len(),
{
    if words.len() == 0 {
        Ok(default_arguments())
    } else {
        match scan_words(words.drop_last()) {
            Err(e) => Err(e),
            Ok(a) => apply_word(
                a,
                if words.len() >= 2 {
                    words[words.len() - 2]
                } else {
                    Seq::empty()
                },
                words.last(),
            ),
        }
    }
}

/// The options that the words give: where help is not asked for, both an
/// output directory and an input file are required.
pub open spec fn parse_words(words: Seq<Seq<char>>) -> Result<ArgumentsView, ArgumentError> {
    match scan_words(words) {
        Err(e) => Err(e),
        Ok(a) => if a.help {
            Ok(a)
        } else if a.output.len() == 0 {
            Err(ArgumentError::MissingOutput)
        } else if a.input.len() == 0 {
            Err(ArgumentError::MissingInput)
        } else {
            Ok(a)
        },
    }
}

/// Reads the value of `-r`.
pub fn parse_row_limit(word: &str) -> (r: Result<usize, ArgumentError>)
    ensures
        match read_row_limit(word@) {
            Some(n) => r == Ok::<usize, ArgumentError>(n),
            None => r == Err::<usize, ArgumentError>(ArgumentError::InvalidRowLimit),
        },
{
    match parse_i32_text(word) {
        Some(n) => if n >= 1 {
            Ok(n as usize)
        } else {
            Err(ArgumentError::InvalidRowLimit)
        },
        None => Err(ArgumentError::InvalidRowLimit),
    }
}

/// Reads the value of `-l`.
pub fn parse_varchar_length(word: &str) -> (r: Result<u32, ArgumentError>)
    ensures
        match read_varchar_length(word@) {
            Some(n) => r == Ok::<u32, ArgumentError>(n),
            None => r == Err::<u32, ArgumentError>(ArgumentError::InvalidVarcharLength),
        },
{
    match parse_i32_text(word) {
        Some(n) => if n >= 0 {
            Ok(n as u32)
        } else {
            Err(ArgumentError::InvalidVarcharLength)
        },
        None => Err(ArgumentError::InvalidVarcharLength),
    }
}

/// The usage text.
pub fn get_arguments_help() -> (r: String)
    ensures
        r@ == help_text(),
{
    HELP.to_owned()
}

pub const HELP: &'static str = "
Usage:
    osm-to-sql [OPTIONS] -i <xml_file_path.xml> -d <output_directory>

OPTIONS:
    -i        Input open street map file in XML format.
    -l        Varchar length used in table creation. [255]
    -d        Output directory to save output sql files.
    -r        Maximum rows per one SQL insert query. [400]
    -h        Prints help information
    -g        Do not use INSERT IGNORE queries
    ";

pub open spec fn help_text() -> Seq<char> {
    HELP@
}

impl Default for Arguments {
    fn default() -> (r: Arguments)
        ensures
            r@ == default_arguments(),
    {
        Arguments {
            input: String::new(),
            output: String::new(),
            maximum_rows: 400,
            varchar_length: 255,
            no_ignore: false,
            help: false,
        }
    }
}

impl Arguments {
    /// Reads the options from the words of a command line, the program's name
    /// first.
    pub fn parse_args(args: Vec<String>) -> (r: Result<Arguments, ArgumentError>)
        ensures
            match parse_words(args@.map_values(|s: String| s@)) {
                Ok(a) => r is Ok && r->Ok_0@ == a,
                Err(e) => r == Err::<Arguments, ArgumentError>(e),
            },
    {
        let ghost words = args@.map_values(|s: String| s@);
        let mut a = Arguments::default();
        let mut i: usize = 0;
        assert(words.take(0) =~= Seq::<Seq<char>>::empty());
        while i < args.len()
            invariant
                i <= args@.len(),
                words == args@.map_values(|s: String| s@),
                scan_words(words.take(i as int)) == Ok::<ArgumentsView, ArgumentError>(a@),
            decreases args@.len() - i,
        {
            let word = args[i].as_str();
            let ghost t = words.take(i + 1);
            assert(t.drop_last() =~= words.take(i as int));
            assert(t.last() == word@);
            if i >= 1 {
                assert(t[t.len() - 2] == args@[i - 1]@);
            }
            let prev: &str = if i >= 1 { args[i - 1].as_str() } else { "" };
            proof {
                if i == 0 {
                    reveal_strlit("");
                    assert(prev@ =~= Seq::<char>::empty());
                }
            }
            if same_text(prev, "-i") {
                a.input = args[i].clone();
            } else if same_text(prev, "-d") {
                a.output = args[i].clone();
            } else if same_text(prev, "-r") {
                match parse_row_limit(word) {
                    Ok(n) => a.maximum_rows = n,
                    Err(e) => {
                        proof {
                            lemma_scan_error_stays(words, i + 1, e);
                        }
                        return Err(e);
                    },
                }
            } else if same_text(prev, "-l") {
                match parse_varchar_length(word) {
                    Ok(n) => a.varchar_length = n,
                    Err(e) => {
                        proof {
                            lemma_scan_error_stays(words, i + 1, e);
                        }
                        return Err(e);
                    },
                }
            } else if same_text(prev, "-h") {
                a.help = true;
            } else if same_text(prev, "-g") {
                a.no_ignore = true;
            }
            if same_text(word, "-h") {
                a.help = true;
            }
            if same_text(word, "-g") {
                a.no_ignore = true;
            }
            i = i + 1;
        }
        assert(words.take(i as int) =~= words);
        if a.help {
            return Ok(a);
        }
        if a.output.as_str().is_empty() {
            return Err(ArgumentError::MissingOutput);
        }
        if a.input.as_str().is_empty() {
            return Err(ArgumentError::MissingInput);
        }
        Ok(a)
    }

    /// What a run of the library is configured with.
    pub fn settings(&self) -> (r: Settings)
        ensures
            r == (Settings {
                maximum_rows_per_query: self.maximum_rows,
                varchar_length: self.varchar_length,
                ignore_duplicates: !self.no_ignore,
            }),
    {
        Settings {
            maximum_rows_per_query: self.maximum_rows,
            varchar_length: self.varchar_length,
            ignore_duplicates: !self.no_ignore,
        }
    }
}

proof fn lemma_scan_error_stays(words: Seq<Seq<char>>, i: int, e: ArgumentError)
    requires
        0 <= i <= words.len(),
        scan_words(words.take(i)) == Err::<ArgumentsView, ArgumentError>(e),
    ensures
        scan_words(words) == Err::<ArgumentsView, ArgumentError>(e),
    decreases words.len() - i,
{
    if i < words.len() {
        assert(words.take(i + 1).drop_last() =~= words.take(i));
        lemma_scan_error_stays(words, i + 1, e);
    } else {
        assert(words.take(i) =~= words);
    }
}

} // verus!
