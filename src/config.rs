//! The resolved settings of one invocation, how the command line is layered
//! over the settings file, and which template format a path asks for.
use vstd::prelude::*;
use vstd::string::StringExecFns;

verus! {

/// The settings of one invocation.
#[derive(Debug, Clone)]
pub struct Conf {
    /// The command to run, then the arguments shared by every run.
    pub cmd: Vec<String>,
    /// The argument variants; an empty one adds no argument.
    pub args: Vec<String>,
    /// The working directory of every run.
    pub cwd: String,
    /// The timeout of one run in seconds; none means no timeout.
    pub timeout: Option<u32>,
    /// The pause after each run in seconds, for serial runs only.
    pub interval: u32,
    /// Absent: serial; zero: everything at once; `n`: at most `n` at once.
    pub parallel: Option<u32>,
    /// How many times each variant is run.
    pub number: u32,
    /// The prefix of the output directory; the command when absent.
    pub output: Option<String>,
    /// The number of worker threads.
    pub threads: Option<u32>,
}

/// One layer of settings, any of which may be missing.
#[derive(Debug, Clone, Default)]
pub struct PartialConf {
    pub cmd: Option<Vec<String>>,
    pub args: Option<Vec<String>>,
    pub cwd: Option<String>,
    pub timeout: Option<u32>,
    pub interval: Option<u32>,
    pub parallel: Option<u32>,
    pub number: Option<u32>,
    pub output: Option<String>,
    pub threads: Option<u32>,
}

/// The subcommands.
#[derive(Debug, Clone)]
pub enum Commands {
    /// Write a template of the settings file to `path`.
    Template { path: String },
}

/// The command line.
#[derive(Debug)]
pub struct Cli {
    pub cmd: Option<Commands>,
    pub conf: Conf,
    /// The settings file to read.
    pub config: String,
}

/// The first of two optional values that is present.
pub open spec fn first_of<T>(a: Option<T>, b: Option<T>) -> Option<T> {
    match a {
        Some(x) => Some(x),
        None => b,
    }
}

fn either<T>(a: Option<T>, b: Option<T>) -> (r: Option<T>)
    ensures
        r == first_of(a, b),
{
    match a {
        Some(x) => Some(x),
        None => b,
    }
}

/// Layers the command line over the settings file: a value given on the
/// command line wins; an optional one that it leaves out is taken from the
/// file. The command, variants, directory, interval and repeat count always
/// come from the command line, which gives each of them a value.
pub fn load_config(cli: Cli, file: PartialConf) -> (r: Conf)
    ensures
        r.cmd == cli.conf.cmd,
        r.args == cli.conf.args,
        r.cwd == cli.conf.cwd,
        r.interval == cli.conf.interval,
        r.number == cli.conf.number,
        r.timeout == first_of(cli.conf.timeout, file.timeout),
        r.parallel == first_of(cli.conf.parallel, file.parallel),
        r.output == first_of(cli.conf.output, file.output),
        r.threads == first_of(cli.conf.threads, file.threads),
{
    let c = cli.conf;
    Conf {
        cmd: c.cmd,
        args: c.args,
        cwd: c.cwd,
        timeout: either(c.timeout, file.timeout),
        interval: c.interval,
        parallel: either(c.parallel, file.parallel),
        number: c.number,
        output: either(c.output, file.output),
        threads: either(c.threads, file.threads),
    }
}

/// The formats a settings template can be written in.
#[derive(Debug, Clone, Copy, PartialEq, Eq, Structural)]
pub enum TemplateFormat {
    Toml,
    Yaml,
    Json5,
}

/// Why no template format could be chosen.
#[derive(Debug, Clone, Copy, PartialEq, Eq, Structural)]
pub enum TemplateError {
    /// The path has no extension.
    MissingExtension,
    /// The extension is none of toml, yaml, yml and json5.
    UnsupportedExtension,
}

/// The extension of a path, as `std::path::Path::extension` gives it.
pub uninterp spec fn extension_of(path: Seq<char>) -> Option<Seq<char>>;

/// Relies on `std::path::Path::extension`: the part of the file name after its
/// last dot, if any; a path made from a `&str` has a UTF-8 extension.
#[verifier::external_body]
fn path_extension(path: &str) -> (r: Option<String>)
    ensures
        match r {
            Some(e) => extension_of(path@) == Some(e@),
            None => extension_of(path@) is None,
        },
{
    match std::path::Path::new(path).extension() {
        Some(e) => Some(e.to_string_lossy().into_owned()),
        None => None,
    }
}

/// The template format that an extension asks for.
pub open spec fn format_spec(ext: Option<Seq<char>>) -> Result<TemplateFormat, TemplateError> {
    match ext {
        None => Err(TemplateError::MissingExtension),
        Some(e) => if e == seq!['t', 'o', 'm', 'l'] {
            Ok(TemplateFormat::Toml)
        } else if e == seq!['y', 'a', 'm', 'l'] || e == seq!['y', 'm', 'l'] {
            Ok(TemplateFormat::Yaml)
        } else if e == seq!['j', 's', 'o', 'n', '5'] {
            Ok(TemplateFormat::Json5)
        } else {
            Err(TemplateError::UnsupportedExtension)
        },
    }
}

/// The template format that an extension asks for.
pub fn format_of_extension(ext: &Option<String>) -> (r: Result<TemplateFormat, TemplateError>)
    ensures
        r == format_spec(
            match ext {
                Some(e) => Some(e@),
                None => None,
            },
        ),
{
    proof {
        reveal_strlit("toml");
        reveal_strlit("yaml");
        reveal_strlit("yml");
        reveal_strlit("json5");
    }
    match ext {
        None => Err(TemplateError::MissingExtension),
        Some(e) => {
            let toml = String::from_str("toml");
            let yaml = String::from_str("yaml");
            let yml = String::from_str("yml");
            let json5 = String::from_str("json5");
            assert(toml@ =~= seq!['t', 'o', 'm', 'l']);
            assert(yaml@ =~= seq!['y', 'a', 'm', 'l']);
            assert(yml@ =~= seq!['y', 'm', 'l']);
            assert(json5@ =~= seq!['j', 's', 'o', 'n', '5']);
            if *e == toml {
                Ok(TemplateFormat::Toml)
            } else if *e == yaml || *e == yml {
                Ok(TemplateFormat::Yaml)
            } else if *e == json5 {
                Ok(TemplateFormat::Json5)
            } else {
                Err(TemplateError::UnsupportedExtension)
            }
        },
    }
}

/// The template format that the extension of `path` asks for.
pub fn template_format(path: &str) -> (r: Result<TemplateFormat, TemplateError>)
    ensures
        r == format_spec(extension_of(path@)),
{
    let ext = path_extension(path);
    format_of_extension(&ext)
}

} // verus!
