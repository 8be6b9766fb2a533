//! The settings of a run, as the command line gives them.
use vstd::prelude::*;

verus! {

/// The settings of a run.
#[derive(Debug, PartialEq, Eq)]
pub struct Config {
    root_directory: String,
    gpu_enable: bool,
}

/// Model of the settings.
pub struct ConfigModel {
    pub root_directory: Seq<char>,
    pub gpu_enable: bool,
}

impl View for Config {
    type V = ConfigModel;

    closed spec fn view(&self) -> ConfigModel {
        ConfigModel { root_directory: self.root_directory@, gpu_enable: self.gpu_enable }
    }
}

/// Why the arguments give no settings.
#[derive(Debug, Clone, Copy, PartialEq, Eq, Structural)]
pub enum ArgumentError {
    /// The last argument asks for a directory and none follows.
    MissingValue,
    /// No argument names the data directory.
    MissingDirectory,
}

/// Something to tell the user about the arguments.
#[derive(Debug, PartialEq, Eq)]
pub enum Notice {
    /// Help was asked for.
    Help,
    /// An option that is not known.
    UnknownArgument(String),
    /// An argument that is no option, where none is expected.
    UnknownPositional(String),
}

/// Model of a notice.
pub enum NoticeModel {
    Help,
    UnknownArgument(Seq<char>),
    UnknownPositional(Seq<char>),
}

impl View for Notice {
    type V = NoticeModel;

    open spec fn view(&self) -> NoticeModel {
        match self {
            Notice::Help => NoticeModel::Help,
            Notice::UnknownArgument(argument) => NoticeModel::UnknownArgument(argument@),
            Notice::UnknownPositional(argument) => NoticeModel::UnknownPositional(argument@),
        }
    }
}

/// What has been read off the arguments so far.
pub struct Reading {
    pub root_directory: Option<Seq<char>>,
    pub gpu_enable: bool,
    pub notices: Seq<NoticeModel>,
    /// An option asked for a value and the arguments ended.
    pub missing_value: bool,
}

/// What the arguments add to a reading, one after the other.
///
/// * `-h` and `--help` ask for help.
/// * `-a` and `--accelerate` switch the accelerator on.
/// * `-d` and `--data_dir` take the next argument as the data directory; the
///   last one given counts. Where none follows, the reading ends there.
/// * Anything else is noted as unknown: as an option if it begins with a
///   dash, as a positional argument if not.
pub open spec fn read_arguments(arguments: Seq<Seq<char>>, reading: Reading) -> Reading
    decreases arguments.len(),
{
    if arguments.len() == 0 {
        reading
    } else {
        let argument = arguments[0];
        let rest = arguments.drop_first();
        if argument == "-h"@ || argument == "--help"@ {
            read_arguments(
                rest,
                Reading { notices: reading.notices.push(NoticeModel::Help), ..reading },
            )
        } else if argument == "-a"@ || argument == "--accelerate"@ {
            read_arguments(rest, Reading { gpu_enable: true, ..reading })
        } else if argument == "-d"@ || argument == "--data_dir"@ {
            if rest.len() == 0 {
                Reading { missing_value: true, ..reading }
            } else {
                read_arguments(
                    rest.drop_first(),
                    Reading { root_directory: Some(rest[0]), ..reading },
                )
            }
        } else if argument.len() > 0 && argument[0] == '-' {
            read_arguments(
                rest,
                Reading {
                    notices: reading.notices.push(NoticeModel::UnknownArgument(argument)),
                    ..reading
                },
            )
        } else {
            read_arguments(
                rest,
                Reading {
                    notices: reading.notices.push(NoticeModel::UnknownPositional(argument)),
                    ..reading
                },
            )
        }
    }
}

/// The reading of the arguments from nothing.
pub open spec fn reading_of(arguments: Seq<Seq<char>>) -> Reading {
    read_arguments(
        arguments,
        Reading {
            root_directory: None,
            gpu_enable: false,
            notices: Seq::empty(),
            missing_value: false,
        },
    )
}

/// The settings that a reading gives, or why it gives none.
pub open spec fn settings_of(reading: Reading) -> Result<ConfigModel, ArgumentError> {
    if reading.missing_value {
        Err(ArgumentError::MissingValue)
    } else {
        match reading.root_directory {
            None => Err(ArgumentError::MissingDirectory),
            Some(root_directory) => Ok(
                ConfigModel { root_directory, gpu_enable: reading.gpu_enable },
            ),
        }
    }
}

/// Whether the argument is that word.
fn is_word(argument: &String, word: &str) -> (same: bool)
    ensures
        same == (argument@ == word@),
{
    let word = word.to_owned();
    *argument == word
}

impl Config {
    /// The settings that the arguments give, and what there is to tell the
    /// user about them. The arguments are those after the program's name.
    pub fn new(arguments: &Vec<String>) -> (parsed: (Result<Config, ArgumentError>, Vec<Notice>))
        ensures
            parsed.1@.map_values(|n: Notice| n@) == reading_of(
                arguments@.map_values(|a: String| a@),
            ).notices,
            match settings_of(reading_of(arguments@.map_values(|a: String| a@))) {
                Ok(settings) => parsed.0 matches Ok(config) && config@ == settings,
                Err(error) => parsed.0 matches Err(e) && e == error,
            },
    {
        let ghost words = arguments@.map_values(|a: String| a@);
        let mut root_directory: Option<String> = None;
        let mut gpu_enable = false;
        let mut notices: Vec<Notice> = Vec::new();
        let mut missing_value = false;
        let mut i: usize = 0;
        assert(words.subrange(0, words.len() as int) =~= words);
        assert(notices@.map_values(|n: Notice| n@) =~= Seq::empty());
        while i < arguments.len() && !missing_value
            invariant
                i <= arguments.len(),
                words == arguments@.map_values(|a: String| a@),
                missing_value ==> reading_of(words) == (Reading {
                    root_directory: match root_directory {
                        Some(directory) => Some(directory@),
                        None => None,
                    },
                    gpu_enable,
                    notices: notices@.map_values(|n: Notice| n@),
                    missing_value: true,
                }),
                !missing_value ==> reading_of(words) == read_arguments(
                    words.subrange(i as int, words.len() as int),
                    Reading {
                        root_directory: match root_directory {
                            Some(directory) => Some(directory@),
                            None => None,
                        },
                        gpu_enable,
                        notices: notices@.map_values(|n: Notice| n@),
                        missing_value: false,
                    },
                ),
            decreases arguments.len() - i + if missing_value { 0int } else { 1int },
        {
            let ghost left = words.subrange(i as int, words.len() as int);
            let ghost noted = notices@.map_values(|n: Notice| n@);
            assert(left.len() > 0 && left[0] == arguments@[i as int]@);
            assert(left.drop_first() =~= words.subrange(i + 1, words.len() as int));
            let argument = &arguments[i];
            if is_word(argument, "-h") || is_word(argument, "--help") {
                notices.push(Notice::Help);
                assert(notices@.map_values(|n: Notice| n@) =~= noted.push(NoticeModel::Help));
                i += 1;
            } else if is_word(argument, "-a") || is_word(argument, "--accelerate") {
                gpu_enable = true;
                i += 1;
            } else if is_word(argument, "-d") || is_word(argument, "--data_dir") {
                if i + 1 < arguments.len() {
                    assert(left.drop_first()[0] == arguments@[i + 1]@);
                    assert(left.drop_first().drop_first() =~= words.subrange(
                        i + 2,
                        words.len() as int,
                    ));
                    root_directory = Some(arguments[i + 1].clone());
                    i += 2;
                } else {
                    missing_value = true;
                }
            } else if argument.as_str().unicode_len() > 0 && argument.as_str().get_char(0) == '-' {
                notices.push(Notice::UnknownArgument(argument.clone()));
                assert(notices@.map_values(|n: Notice| n@) =~= noted.push(
                    NoticeModel::UnknownArgument(argument@),
                ));
                i += 1;
            } else {
                notices.push(Notice::UnknownPositional(argument.clone()));
                assert(notices@.map_values(|n: Notice| n@) =~= noted.push(
                    NoticeModel::UnknownPositional(argument@),
                ));
                i += 1;
            }
        }
        if missing_value {
            return (Err(ArgumentError::MissingValue), notices);
        }
        match root_directory {
            Some(root_directory) => (Ok(Config { root_directory, gpu_enable }), notices),
            None => (Err(ArgumentError::MissingDirectory), notices),
        }
    }

    /// The greeting that answers a call for help.
    pub fn help() -> (text: String)
        ensures
            text@ == "Welcome to miner!"@,
    {
        "Welcome to miner!".to_owned()
    }

    /// The directory that the data is read from.
    pub fn get_root_directory(&self) -> (directory: &String)
        ensures
            directory@ == self@.root_directory,
    {
        &self.root_directory
    }

    /// Whether the accelerator is switched on.
    pub fn get_gpu_enable(&self) -> (enabled: bool)
        ensures
            enabled == self@.gpu_enable,
    {
        self.gpu_enable
    }
}

} // verus!
