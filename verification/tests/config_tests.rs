use rusting::config::{parse_worker_count, read_args, resolve_args, Config, ConfigError};

fn args_of(words: &[&str]) -> Vec<String> {
    words.iter().map(|w| w.to_string()).collect()
}

#[test]
fn worker_count_plain_digits() {
    assert_eq!(parse_worker_count("0"), Some(0));
    assert_eq!(parse_worker_count("4"), Some(4));
    assert_eq!(parse_worker_count("16"), Some(16));
    assert_eq!(parse_worker_count("007"), Some(7));
    assert_eq!(parse_worker_count("1234567890"), Some(1234567890));
}

#[test]
fn worker_count_with_plus_sign() {
    assert_eq!(parse_worker_count("+4"), Some(4));
    assert_eq!(parse_worker_count("+0"), Some(0));
    assert_eq!(parse_worker_count("+"), None);
    assert_eq!(parse_worker_count("++4"), None);
    assert_eq!(parse_worker_count("4+"), None);
}

#[test]
fn worker_count_rejects_what_is_no_number() {
    for bad in ["", " ", "-1", "-0", " 4", "4 ", "4_0", "0x10", "four", "4.0", "１２", "1e3", "\n"] {
        assert_eq!(parse_worker_count(bad), None, "argument {:?}", bad);
    }
}

#[test]
fn worker_count_at_the_limit_of_usize() {
    let max = usize::MAX.to_string();
    assert_eq!(parse_worker_count(&max), Some(usize::MAX));
    let over = format!("{}0", max);
    assert_eq!(parse_worker_count(&over), None);
    let mut next = max.clone().into_bytes();
    let last = next.len() - 1;
    next[last] += 1;
    let next = String::from_utf8(next).unwrap();
    assert_eq!(parse_worker_count(&next), None);
    assert_eq!(parse_worker_count(&format!("000{}", max)), Some(usize::MAX));
    assert_eq!(parse_worker_count("99999999999999999999999999999999999999999"), None);
}

#[test]
fn worker_count_agrees_with_from_str() {
    let samples = [
        "", "0", "1", "+1", "-1", "00", "+00", "+-1", "12a", "a12", "18446744073709551615",
        "18446744073709551616", "4294967295", "4294967296", " 1", "1 ", "+", "-", "١٢",
    ];
    for s in samples {
        assert_eq!(parse_worker_count(s), s.parse::<usize>().ok(), "argument {:?}", s);
    }
}

#[test]
fn missing_path_is_an_error() {
    assert_eq!(resolve_args(&args_of(&[]), 8), Err(ConfigError::MissingPath));
    assert_eq!(resolve_args(&args_of(&["rusting"]), 8), Err(ConfigError::MissingPath));
    assert_eq!(read_args(&args_of(&["rusting"])), Err(ConfigError::MissingPath));
}

#[test]
fn path_alone_takes_detected_processors() {
    let config = resolve_args(&args_of(&["rusting", "urls.csv"]), 8);
    assert_eq!(config, Ok(Config { path: "urls.csv".to_string(), workers: 8 }));
}

#[test]
fn explicit_count_wins_over_detected() {
    let config = resolve_args(&args_of(&["rusting", "urls.csv", "3"]), 8);
    assert_eq!(config, Ok(Config { path: "urls.csv".to_string(), workers: 3 }));
}

#[test]
fn explicit_zero_is_accepted() {
    let config = resolve_args(&args_of(&["rusting", "urls.csv", "0"]), 8);
    assert_eq!(config, Ok(Config { path: "urls.csv".to_string(), workers: 0 }));
    let config = read_args(&args_of(&["rusting", "urls.csv", "0"]));
    assert_eq!(config, Ok(Config { path: "urls.csv".to_string(), workers: 0 }));
}

#[test]
fn invalid_count_is_an_error() {
    let config = resolve_args(&args_of(&["rusting", "urls.csv", "many"]), 8);
    assert_eq!(config, Err(ConfigError::InvalidWorkerCount));
    let config = read_args(&args_of(&["rusting", "urls.csv", "-2"]));
    assert_eq!(config, Err(ConfigError::InvalidWorkerCount));
}

#[test]
fn further_arguments_are_ignored() {
    let config = resolve_args(&args_of(&["rusting", "urls.csv", "2", "extra", "9"]), 8);
    assert_eq!(config, Ok(Config { path: "urls.csv".to_string(), workers: 2 }));
}

#[test]
fn path_is_taken_as_it_stands() {
    let config = resolve_args(&args_of(&["rusting", " spaced path ,.csv "]), 1);
    assert_eq!(config, Ok(Config { path: " spaced path ,.csv ".to_string(), workers: 1 }));
}

#[test]
fn default_count_is_the_machine_count() {
    let config = read_args(&args_of(&["rusting", "urls.csv"])).unwrap();
    assert_eq!(config.path, "urls.csv");
    assert!(config.workers >= 1);
    assert_eq!(config.workers, num_cpus::get());
}

#[test]
fn config_error_messages() {
    assert_eq!(
        ConfigError::MissingPath.message(),
        "Usage: 'rusting <path/to/csv> [OPTIONAL] <workers>'"
    );
    assert_eq!(
        ConfigError::InvalidWorkerCount.message(),
        "the worker count must be a non-negative integer"
    );
}
