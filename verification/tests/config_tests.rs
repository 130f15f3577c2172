use spectrogram::config::{parse_args_from, Config, ConfigError, Flag};
use spectrogram::decimal::parse_usize;
use std::path::PathBuf;

fn args(words: &[&str]) -> Vec<String> {
    words.iter().map(|w| w.to_string()).collect()
}

#[test]
fn parse_args_requires_input() {
    let result = parse_args_from(Vec::<String>::new());
    assert!(result.is_err());
}

#[test]
fn parse_args_rejects_zero_downsample() {
    let args = vec![
        "--input".into(),
        "input.wav".into(),
        "--downsample".into(),
        "0".into(),
    ];
    let err = parse_args_from(args).expect_err("expected failure for zero downsample");
    assert!(err.message().contains("--downsample"));
}

#[test]
fn parse_args_accepts_minimal_valid_input() {
    let args = vec!["--input".into(), "input.wav".into()];
    let cfg = parse_args_from(args).expect("valid arguments");
    assert_eq!(PathBuf::from(cfg.input_path), PathBuf::from("input.wav"));
    assert_eq!(cfg.downsample, 32);
}

#[test]
fn parse_args_takes_an_explicit_downsample() {
    let cfg = parse_args_from(args(&["--input", "input.wav", "--downsample", "128"]))
        .expect("valid arguments");
    assert_eq!(cfg.downsample, 128);
}

#[test]
fn parse_args_defaults() {
    let cfg = parse_args_from(args(&["-i", "a.wav"])).expect("valid arguments");
    assert_eq!(
        cfg,
        Config {
            input_path: "a.wav".to_string(),
            output_path: "./a.png".to_string(),
            sample_rate: 44_100,
            downsample: 32,
            window_width: 32,
            jobs: 16,
        }
    );
}

#[test]
fn parse_args_reads_every_option() {
    let cfg = parse_args_from(args(&[
        "-o", "out.png", "-r", "8000", "-d", "4", "-f", "8", "-j", "2", "-i", "tone.wav",
    ]))
    .expect("valid arguments");
    assert_eq!(
        cfg,
        Config {
            input_path: "tone.wav".to_string(),
            output_path: "out.png".to_string(),
            sample_rate: 8000,
            downsample: 4,
            window_width: 8,
            jobs: 2,
        }
    );
    let long = parse_args_from(args(&[
        "--output", "out.png", "--sample-rate", "8000", "--downsample", "4",
        "--frame-size-div", "8", "--jobs", "2", "--input", "tone.wav",
    ]))
    .expect("valid arguments");
    assert_eq!(long, cfg);
}

#[test]
fn parse_args_later_value_wins_and_unknown_words_pass() {
    let cfg = parse_args_from(args(&["stray", "-i", "a.wav", "--verbose", "-i", "b.wav"]))
        .expect("valid arguments");
    assert_eq!(cfg.input_path, "b.wav");
}

#[test]
fn parse_args_option_takes_next_word_as_value() {
    let cfg = parse_args_from(args(&["-i", "-o", "x.png"])).expect("valid arguments");
    assert_eq!(cfg.input_path, "-o");
    assert_eq!(cfg.output_path, "./a.png");
}

#[test]
fn parse_args_missing_value() {
    assert_eq!(
        parse_args_from(args(&["-i"])),
        Err(ConfigError::MissingValue(Flag::Input))
    );
    assert_eq!(
        parse_args_from(args(&["-i", "a.wav", "--jobs"])),
        Err(ConfigError::MissingValue(Flag::Jobs))
    );
}

#[test]
fn parse_args_invalid_number() {
    assert_eq!(
        parse_args_from(args(&["-i", "a.wav", "-r", "fast"])),
        Err(ConfigError::InvalidNumber(Flag::SampleRate))
    );
    assert_eq!(
        parse_args_from(args(&["-i", "a.wav", "-d", "-4"])),
        Err(ConfigError::InvalidNumber(Flag::Downsample))
    );
    assert_eq!(
        parse_args_from(args(&["-i", "a.wav", "-f", ""])),
        Err(ConfigError::InvalidNumber(Flag::FrameSizeDiv))
    );
    assert_eq!(
        parse_args_from(args(&["-i", "a.wav", "-j", "1 "])),
        Err(ConfigError::InvalidNumber(Flag::Jobs))
    );
}

#[test]
fn parse_args_zero_values() {
    assert_eq!(
        parse_args_from(args(&["-i", "a.wav", "-r", "0"])),
        Err(ConfigError::ZeroValue(Flag::SampleRate))
    );
    assert_eq!(
        parse_args_from(args(&["-i", "a.wav", "-d", "0"])),
        Err(ConfigError::ZeroValue(Flag::Downsample))
    );
    assert_eq!(
        parse_args_from(args(&["-i", "a.wav", "-f", "0"])),
        Err(ConfigError::ZeroValue(Flag::FrameSizeDiv))
    );
    assert_eq!(
        parse_args_from(args(&["-i", "a.wav", "-j", "0"])),
        Err(ConfigError::ZeroValue(Flag::Jobs))
    );
}

#[test]
fn parse_args_missing_input_comes_before_zero_checks() {
    assert_eq!(
        parse_args_from(args(&["-d", "0"])),
        Err(ConfigError::MissingInput)
    );
}

#[test]
fn parse_args_help() {
    assert_eq!(
        parse_args_from(args(&["-i", "a.wav", "-h"])),
        Err(ConfigError::HelpRequested)
    );
}

#[test]
fn config_error_messages() {
    assert_eq!(
        ConfigError::MissingValue(Flag::Input).message(),
        "missing value for --input / -i option"
    );
    assert_eq!(
        ConfigError::InvalidNumber(Flag::SampleRate).message(),
        "--sample-rate / -r expects a positive integer"
    );
    assert_eq!(
        ConfigError::ZeroValue(Flag::Jobs).message(),
        "--jobs must be greater than zero"
    );
    assert_eq!(
        ConfigError::MissingInput.message(),
        "input path is required (pass with --input)"
    );
}

#[test]
fn parse_usize_reads_decimal() {
    assert_eq!(parse_usize("0"), Some(0));
    assert_eq!(parse_usize("44100"), Some(44_100));
    assert_eq!(parse_usize("+7"), Some(7));
    assert_eq!(parse_usize("007"), Some(7));
    assert_eq!(parse_usize(&usize::MAX.to_string()), Some(usize::MAX));
}

#[test]
fn parse_usize_refuses_what_is_no_number() {
    assert_eq!(parse_usize(""), None);
    assert_eq!(parse_usize("+"), None);
    assert_eq!(parse_usize("-"), None);
    assert_eq!(parse_usize("-1"), None);
    assert_eq!(parse_usize("++1"), None);
    assert_eq!(parse_usize("1+"), None);
    assert_eq!(parse_usize(" 1"), None);
    assert_eq!(parse_usize("12a"), None);
    assert_eq!(parse_usize("١٢"), None);
    assert_eq!(parse_usize("18446744073709551616"), None);
    assert_eq!(parse_usize("99999999999999999999999999"), None);
}

#[test]
fn parse_usize_agrees_with_the_standard_parser() {
    let texts = [
        "0", "+0", "12", "+12", "0012", "", "+", "-", "-0", "1_000", "1e3", "0x10", "٣",
        "18446744073709551615", "18446744073709551616",
    ];
    for text in texts {
        assert_eq!(parse_usize(text), text.parse::<usize>().ok());
    }
}
