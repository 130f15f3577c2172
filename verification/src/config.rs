//! Run configuration and the command-line grammar that produces it.

use vstd::prelude::*;
use crate::decimal::{parse_usize, parse_usize_spec};

verus! {

/// An option that takes a value.
#[derive(Clone, Copy, Debug, PartialEq, Eq, Structural)]
pub enum Flag {
    Input,
    Output,
    SampleRate,
    Downsample,
    FrameSizeDiv,
    Jobs,
}

/// Why a list of arguments is not a configuration.
#[derive(Clone, Copy, Debug, PartialEq, Eq, Structural)]
pub enum ConfigError {
    /// The option was the last argument.
    MissingValue(Flag),
    /// The option's value is not an unsigned decimal number that fits.
    InvalidNumber(Flag),
    /// The option's value is zero.
    ZeroValue(Flag),
    /// No input path was given.
    MissingInput,
    /// The arguments ask for the usage text.
    HelpRequested,
}

/// A validated configuration.
#[derive(Clone, Debug, PartialEq, Eq)]
pub struct Config {
    pub input_path: String,
    pub output_path: String,
    pub sample_rate: usize,
    pub downsample: usize,
    /// The frame-size divisor: a window holds `sample_rate / window_width` samples.
    pub window_width: usize,
    pub jobs: usize,
}

/// The mathematical content of a [`Config`].
pub struct ConfigView {
    pub input_path: Seq<char>,
    pub output_path: Seq<char>,
    pub sample_rate: usize,
    pub downsample: usize,
    pub window_width: usize,
    pub jobs: usize,
}

impl View for Config {
    type V = ConfigView;

    open spec fn view(&self) -> ConfigView {
        ConfigView {
            input_path: self.input_path@,
            output_path: self.output_path@,
            sample_rate: self.sample_rate,
            downsample: self.downsample,
            window_width: self.window_width,
            jobs: self.jobs,
        }
    }
}

impl Config {
    /// Every numeric setting is positive.
    pub open spec fn well_formed(&self) -> bool {
        self@.well_formed()
    }
}

impl ConfigView {
    /// Every numeric setting is positive.
    pub open spec fn well_formed(&self) -> bool {
        self.sample_rate > 0 && self.downsample > 0 && self.window_width > 0 && self.jobs > 0
    }
}

/// The settings gathered while the arguments are read.
pub struct Draft {
    pub input_path: Option<Seq<char>>,
    pub output_path: Seq<char>,
    pub sample_rate: usize,
    pub downsample: usize,
    pub frame_size_div: usize,
    pub jobs: usize,
}

/// The settings in force before any argument is read.
pub open spec fn defaults() -> Draft {
    Draft {
        input_path: None,
        output_path: "./a.png"@,
        sample_rate: 44_100,
        downsample: 32,
        frame_size_div: 32,
        jobs: 16,
    }
}

/// The option that an argument names, if it names one.
pub open spec fn flag_of(s: Seq<char>) -> Option<Flag> {
    if s == "-i"@ || s == "--input"@ {
        Some(Flag::Input)
    } else if s == "-o"@ || s == "--output"@ {
        Some(Flag::Output)
    } else if s == "-r"@ || s == "--sample-rate"@ {
        Some(Flag::SampleRate)
    } else if s == "-d"@ || s == "--downsample"@ {
        Some(Flag::Downsample)
    } else if s == "-f"@ || s == "--frame-size-div"@ {
        Some(Flag::FrameSizeDiv)
    } else if s == "-j"@ || s == "--jobs"@ {
        Some(Flag::Jobs)
    } else {
        None
    }
}

/// Whether an argument asks for the usage text.
pub open spec fn is_help(s: Seq<char>) -> bool {
    s == "-h"@ || s == "--helps"@
}

/// The draft after `flag` was given `value`.
pub open spec fn apply(d: Draft, flag: Flag, value: Seq<char>) -> Result<Draft, ConfigError> {
    match flag {
        Flag::Input => Ok(Draft { input_path: Some(value), ..d }),
        Flag::Output => Ok(Draft { output_path: value, ..d }),
        Flag::SampleRate => match parse_usize_spec(value) {
            Some(n) => Ok(Draft { sample_rate: n, ..d }),
            None => Err(ConfigError::InvalidNumber(flag)),
        },
        Flag::Downsample => match parse_usize_spec(value) {
            Some(n) => Ok(Draft { downsample: n, ..d }),
            None => Err(ConfigError::InvalidNumber(flag)),
        },
        Flag::FrameSizeDiv => match parse_usize_spec(value) {
            Some(n) => Ok(Draft { frame_size_div: n, ..d }),
            None => Err(ConfigError::InvalidNumber(flag)),
        },
        Flag::Jobs => match parse_usize_spec(value) {
            Some(n) => Ok(Draft { jobs: n, ..d }),
            None => Err(ConfigError::InvalidNumber(flag)),
        },
    }
}

/// Reads the arguments from position `i` on, left to right. An option takes
/// the argument after it as its value, whatever that argument looks like; a
/// later occurrence of an option replaces an earlier one; an argument that
/// names no option is passed over.
pub open spec fn scan(args: Seq<Seq<char>>, i: int, d: Draft) -> Result<Draft, ConfigError>
    decreases args.len() - i,
{
    if i < 0 || i >= args.len() {
        Ok(d)
    } else if is_help(args[i]) {
        Err(ConfigError::HelpRequested)
    } else {
        match flag_of(args[i]) {
            None => scan(args, i + 1, d),
            Some(flag) => if i + 1 >= args.len() {
                Err(ConfigError::MissingValue(flag))
            } else {
                match apply(d, flag, args[i + 1]) {
                    Ok(next) => scan(args, i + 2, next),
                    Err(e) => Err(e),
                }
            },
        }
    }
}

/// The configuration that a complete draft stands for, or the first rule it breaks.
pub open spec fn validate(d: Draft) -> Result<ConfigView, ConfigError> {
    if d.input_path is None {
        Err(ConfigError::MissingInput)
    } else if d.sample_rate == 0 {
        Err(ConfigError::ZeroValue(Flag::SampleRate))
    } else if d.downsample == 0 {
        Err(ConfigError::ZeroValue(Flag::Downsample))
    } else if d.frame_size_div == 0 {
        Err(ConfigError::ZeroValue(Flag::FrameSizeDiv))
    } else if d.jobs == 0 {
        Err(ConfigError::ZeroValue(Flag::Jobs))
    } else {
        Ok(
            ConfigView {
                input_path: d.input_path->0,
                output_path: d.output_path,
                sample_rate: d.sample_rate,
                downsample: d.downsample,
                window_width: d.frame_size_div,
                jobs: d.jobs,
            },
        )
    }
}

/// What a list of arguments means.
pub open spec fn parse_args_spec(args: Seq<Seq<char>>) -> Result<ConfigView, ConfigError> {
    match scan(args, 0, defaults()) {
        Ok(d) => validate(d),
        Err(e) => Err(e),
    }
}

/// Whether two texts hold the same characters.
pub fn same_text(a: &str, b: &str) -> (r: bool)
    ensures
        r == (a@ == b@),
{
    let n = a.unicode_len();
    if n != b.unicode_len() {
        return false;
    }
    let mut i: usize = 0;
    while i < n
        invariant
            i <= n,
            n == a@.len(),
            n == b@.len(),
            forall|k: int| 0 <= k < i ==> a@[k] == b@[k],
        decreases n - i,
    {
        if a.get_char(i) != b.get_char(i) {
            return false;
        }
        i += 1;
    }
    assert(a@ =~= b@);
    true
}

/// Finds the option that `s` names.
pub fn recognise(s: &str) -> (r: Option<Flag>)
    ensures
        r == flag_of(s@),
{
    if same_text(s, "-i") || same_text(s, "--input") {
        Some(Flag::Input)
    } else if same_text(s, "-o") || same_text(s, "--output") {
        Some(Flag::Output)
    } else if same_text(s, "-r") || same_text(s, "--sample-rate") {
        Some(Flag::SampleRate)
    } else if same_text(s, "-d") || same_text(s, "--downsample") {
        Some(Flag::Downsample)
    } else if same_text(s, "-f") || same_text(s, "--frame-size-div") {
        Some(Flag::FrameSizeDiv)
    } else if same_text(s, "-j") || same_text(s, "--jobs") {
        Some(Flag::Jobs)
    } else {
        None
    }
}

/// Reads a numeric option's value.
fn number_for(flag: Flag, value: &str) -> (r: Result<usize, ConfigError>)
    ensures
        r == match parse_usize_spec(value@) {
            Some(n) => Ok::<usize, ConfigError>(n),
            None => Err(ConfigError::InvalidNumber(flag)),
        },
{
    match parse_usize(value) {
        Some(n) => Ok(n),
        None => Err(ConfigError::InvalidNumber(flag)),
    }
}

/// Builds the configuration that the arguments describe. The arguments are
/// those after the program's name.
pub fn parse_args_from(args: Vec<String>) -> (r: Result<Config, ConfigError>)
    ensures
        match parse_args_spec(args.deep_view()) {
            Ok(m) => r is Ok && r->Ok_0@ == m,
            Err(e) => r is Err && r->Err_0 == e,
        },
        r is Ok ==> r->Ok_0.well_formed(),
{
    let ghost av = args.deep_view();
    let mut input_path: Option<String> = None;
    let mut output_path: String = String::from_str("./a.png");
    let mut sample_rate: usize = 44_100;
    let mut downsample: usize = 32;
    let mut frame_size_div: usize = 32;
    let mut jobs: usize = 16;
    let ghost mut d = defaults();

    let n = args.len();
    let mut i: usize = 0;
    while i < n
        invariant
            i <= n,
            n == args.len(),
            av == args.deep_view(),
            av.len() == n,
            forall|k: int| 0 <= k < n ==> #[trigger] av[k] == args[k]@,
            scan(av, i as int, d) == scan(av, 0, defaults()),
            d.input_path is Some == input_path is Some,
            input_path is Some ==> d.input_path->0 == input_path->0@,
            d.output_path == output_path@,
            d.sample_rate == sample_rate,
            d.downsample == downsample,
            d.frame_size_div == frame_size_div,
            d.jobs == jobs,
        decreases n - i,
    {
        let arg = args[i].as_str();
        if same_text(arg, "-h") || same_text(arg, "--helps") {
            return Err(ConfigError::HelpRequested);
        }
        match recognise(arg) {
            None => {
                i += 1;
            },
            Some(flag) => {
                if i + 1 >= n {
                    return Err(ConfigError::MissingValue(flag));
                }
                let value = args[i + 1].as_str();
                match flag {
                    Flag::Input => {
                        input_path = Some(String::from_str(value));
                    },
                    Flag::Output => {
                        output_path = String::from_str(value);
                    },
                    Flag::SampleRate => match number_for(flag, value) {
                        Ok(v) => {
                            sample_rate = v;
                        },
                        Err(e) => {
                            return Err(e);
                        },
                    },
                    Flag::Downsample => match number_for(flag, value) {
                        Ok(v) => {
                            downsample = v;
                        },
                        Err(e) => {
                            return Err(e);
                        },
                    },
                    Flag::FrameSizeDiv => match number_for(flag, value) {
                        Ok(v) => {
                            frame_size_div = v;
                        },
                        Err(e) => {
                            return Err(e);
                        },
                    },
                    Flag::Jobs => match number_for(flag, value) {
                        Ok(v) => {
                            jobs = v;
                        },
                        Err(e) => {
                            return Err(e);
                        },
                    },
                }
                proof {
                    d = apply(d, flag, av[i + 1])->Ok_0;
                }
                i += 2;
            },
        }
    }

    let input_path = match input_path {
        Some(p) => p,
        None => {
            return Err(ConfigError::MissingInput);
        },
    };
    if sample_rate == 0 {
        return Err(ConfigError::ZeroValue(Flag::SampleRate));
    }
    if downsample == 0 {
        return Err(ConfigError::ZeroValue(Flag::Downsample));
    }
    if frame_size_div == 0 {
        return Err(ConfigError::ZeroValue(Flag::FrameSizeDiv));
    }
    if jobs == 0 {
        return Err(ConfigError::ZeroValue(Flag::Jobs));
    }
    Ok(
        Config {
            input_path,
            output_path,
            sample_rate,
            downsample,
            window_width: frame_size_div,
            jobs,
        },
    )
}

impl ConfigError {
    /// The sentence that describes the error.
    pub open spec fn message_spec(self) -> Seq<char> {
        match self {
            ConfigError::MissingValue(Flag::Input) => "missing value for --input / -i option"@,
            ConfigError::MissingValue(Flag::Output) => "missing value for --output / -o option"@,
            ConfigError::MissingValue(Flag::SampleRate) =>
                "missing value for --sample-rate / -r option"@,
            ConfigError::MissingValue(Flag::Downsample) =>
                "missing value for --downsample / -d option"@,
            ConfigError::MissingValue(Flag::FrameSizeDiv) =>
                "missing value for --frame-size-div / -w option"@,
            ConfigError::MissingValue(Flag::Jobs) => "missing value for --jobs / -j option"@,
            ConfigError::InvalidNumber(Flag::Input) => "--input / -i expects a positive integer"@,
            ConfigError::InvalidNumber(Flag::Output) => "--output / -o expects a positive integer"@,
            ConfigError::InvalidNumber(Flag::SampleRate) =>
                "--sample-rate / -r expects a positive integer"@,
            ConfigError::InvalidNumber(Flag::Downsample) =>
                "--downsample / -d expects a positive integer"@,
            ConfigError::InvalidNumber(Flag::FrameSizeDiv) =>
                "--frame-size-div / -f expects a positive integer"@,
            ConfigError::InvalidNumber(Flag::Jobs) => "--jobs / -j expects a positive integer"@,
            ConfigError::ZeroValue(Flag::Input) => "--input must be greater than zero"@,
            ConfigError::ZeroValue(Flag::Output) => "--output must be greater than zero"@,
            ConfigError::ZeroValue(Flag::SampleRate) => "--sample-rate must be greater than zero"@,
            ConfigError::ZeroValue(Flag::Downsample) => "--downsample must be greater than zero"@,
            ConfigError::ZeroValue(Flag::FrameSizeDiv) =>
                "--frame-size-div must be greater than zero"@,
            ConfigError::ZeroValue(Flag::Jobs) => "--jobs must be greater than zero"@,
            ConfigError::MissingInput => "input path is required (pass with --input)"@,
            ConfigError::HelpRequested => "usage text requested (-h)"@,
        }
    }

    /// The sentence that describes the error, as text.
    pub fn message(&self) -> (r: String)
        ensures
            r@ == self.message_spec(),
    {
        match *self {
            ConfigError::MissingValue(Flag::Input) => String::from_str(
                "missing value for --input / -i option",
            ),
            ConfigError::MissingValue(Flag::Output) => String::from_str(
                "missing value for --output / -o option",
            ),
            ConfigError::MissingValue(Flag::SampleRate) => String::from_str(
                "missing value for --sample-rate / -r option",
            ),
            ConfigError::MissingValue(Flag::Downsample) => String::from_str(
                "missing value for --downsample / -d option",
            ),
            ConfigError::MissingValue(Flag::FrameSizeDiv) => String::from_str(
                "missing value for --frame-size-div / -w option",
            ),
            ConfigError::MissingValue(Flag::Jobs) => String::from_str(
                "missing value for --jobs / -j option",
            ),
            ConfigError::InvalidNumber(Flag::Input) => String::from_str(
                "--input / -i expects a positive integer",
            ),
            ConfigError::InvalidNumber(Flag::Output) => String::from_str(
                "--output / -o expects a positive integer",
            ),
            ConfigError::InvalidNumber(Flag::SampleRate) => String::from_str(
                "--sample-rate / -r expects a positive integer",
            ),
            ConfigError::InvalidNumber(Flag::Downsample) => String::from_str(
                "--downsample / -d expects a positive integer",
            ),
            ConfigError::InvalidNumber(Flag::FrameSizeDiv) => String::from_str(
                "--frame-size-div / -f expects a positive integer",
            ),
            ConfigError::InvalidNumber(Flag::Jobs) => String::from_str(
                "--jobs / -j expects a positive integer",
            ),
            ConfigError::ZeroValue(Flag::Input) => String::from_str(
                "--input must be greater than zero",
            ),
            ConfigError::ZeroValue(Flag::Output) => String::from_str(
                "--output must be greater than zero",
            ),
            ConfigError::ZeroValue(Flag::SampleRate) => String::from_str(
                "--sample-rate must be greater than zero",
            ),
            ConfigError::ZeroValue(Flag::Downsample) => String::from_str(
                "--downsample must be greater than zero",
            ),
            ConfigError::ZeroValue(Flag::FrameSizeDiv) => String::from_str(
                "--frame-size-div must be greater than zero",
            ),
            ConfigError::ZeroValue(Flag::Jobs) => String::from_str(
                "--jobs must be greater than zero",
            ),
            ConfigError::MissingInput => String::from_str(
                "input path is required (pass with --input)",
            ),
            ConfigError::HelpRequested => String::from_str("usage text requested (-h)"),
        }
    }
}

} // verus!
