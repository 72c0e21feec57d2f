//! What is settled before the two loops start: the command line, the
//! language it names, and where a model's files lie.

use vstd::prelude::*;

verus! {

/// How many arguments a command line must hold, the program's name
/// included.
pub const REQUIRED_ARGS: usize = 5;

/// A command line that was accepted.
pub struct CommandLine {
    /// The model's name.
    pub model_name: String,
    /// The audio file's name.
    pub wav_file: String,
    /// The transcript file's name.
    pub text_file: String,
    /// The place of the chosen language in the list of supported ones.
    pub language: usize,
}

/// Why a command line was turned down.
pub enum ConfigError {
    /// Fewer than five arguments were given.
    Usage,
    /// The language code is none of the supported ones.
    UnknownLanguage { code: String },
}

/// `code` stands at `index` in `supported`, and nowhere before it.
pub open spec fn first_listed_at(supported: Seq<String>, code: Seq<char>, index: int) -> bool {
    &&& 0 <= index < supported.len()
    &&& supported[index]@ == code
    &&& forall|j: int| 0 <= j < index ==> (#[trigger] supported[j])@ != code
}

/// `code` stands somewhere in `supported`.
pub open spec fn listed(supported: Seq<String>, code: Seq<char>) -> bool {
    exists|i: int| 0 <= i < supported.len() && (#[trigger] supported[i])@ == code
}

/// Looks `code` up among the supported language codes: the first place
/// where it stands, or nothing where it stands nowhere.
pub fn find_language(supported: &Vec<String>, code: &String) -> (found: Option<usize>)
    ensures
        match found {
            Some(index) => first_listed_at(supported@, code@, index as int),
            None => !listed(supported@, code@),
        },
{
    let mut i: usize = 0;
    while i < supported.len()
        invariant
            i <= supported@.len(),
            forall|j: int| 0 <= j < i ==> (#[trigger] supported@[j])@ != code@,
        decreases supported@.len() - i,
    {
        if supported[i] == *code {
            return Some(i);
        }
        i = i + 1;
    }
    None
}

/// Reads a command line of the form: program, model name, audio file,
/// language code, transcript file. Arguments past the fifth are ignored.
///
/// A line of fewer than five arguments is turned down for its shape; one
/// whose language code is not among `supported` is turned down with that
/// code. Every other line is accepted, with the language given by the first
/// place of its code in `supported`.
pub fn parse_args(args: &Vec<String>, supported: &Vec<String>) -> (parsed: Result<
    CommandLine,
    ConfigError,
>)
    ensures
        parsed is Ok <==> args@.len() >= 5 && listed(supported@, args@[3]@),
        match parsed {
            Ok(line) => {
                &&& line.model_name == args@[1]
                &&& line.wav_file == args@[2]
                &&& line.text_file == args@[4]
                &&& first_listed_at(supported@, args@[3]@, line.language as int)
            },
            Err(ConfigError::Usage) => args@.len() < 5,
            Err(ConfigError::UnknownLanguage { code }) => {
                &&& args@.len() >= 5
                &&& code == args@[3]
                &&& !listed(supported@, code@)
            },
        },
{
    if args.len() < REQUIRED_ARGS {
        return Err(ConfigError::Usage);
    }
    match find_language(supported, &args[3]) {
        Some(language) => Ok(
            CommandLine {
                model_name: args[1].clone(),
                wav_file: args[2].clone(),
                text_file: args[4].clone(),
                language,
            },
        ),
        None => Err(ConfigError::UnknownLanguage { code: args[3].clone() }),
    }
}

/// `String::push_str` of the standard library: the text is added at the end
/// of the target, and what the target held stays in front of it.
#[verifier::external_body]
fn push_text(target: &mut String, text: &str)
    ensures
        final(target)@ == old(target)@ + text@,
{
    target.push_str(text)
}

/// The path, without extension, under which a model's record is stored.
pub open spec fn record_path_of(model_name: Seq<char>) -> Seq<char> {
    "models/"@ + model_name + "/"@ + model_name
}

/// The path of a model's configuration file.
pub open spec fn config_path_of(model_name: Seq<char>) -> Seq<char> {
    record_path_of(model_name) + ".cfg"@
}

/// The path, without extension, under which the record of the model
/// `model_name` is stored: `models/<name>/<name>`.
pub fn model_record_path(model_name: &str) -> (path: String)
    ensures
        path@ == record_path_of(model_name@),
{
    let mut path = String::new();
    push_text(&mut path, "models/");
    push_text(&mut path, model_name);
    push_text(&mut path, "/");
    push_text(&mut path, model_name);
    assert(path@ =~= record_path_of(model_name@));
    path
}

/// The path of the configuration file of the model `model_name`:
/// `models/<name>/<name>.cfg`.
pub fn model_config_path(model_name: &str) -> (path: String)
    ensures
        path@ == config_path_of(model_name@),
{
    let mut path = model_record_path(model_name);
    push_text(&mut path, ".cfg");
    path
}

} // verus!
