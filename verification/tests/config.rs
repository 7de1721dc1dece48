use battered::config::{
    command_from, config_text, default_icon, default_interval, default_urgency,
    deserialize_command, deserialize_float_percentage, deserialize_timeout, deserialize_urgency,
    urgency_from, xdg_config_home, Action, Config, ConfigError, FileRead, Notify, Timeout, Urgency,
};

fn words(command: &[&str]) -> Vec<String> {
    command.iter().map(|w| String::from(*w)).collect()
}

fn rule(percentage: f32) -> Action {
    Action {
        percentage: deserialize_float_percentage(percentage.to_bits()).unwrap(),
        command: None,
        notify: None,
    }
}

#[test]
fn test_valid_config() {
    let notify = Notify::new(
        String::from("Battery discharging"),
        None,
        Some(deserialize_urgency("Low").unwrap()),
        Some(String::from("battery-discharging")),
        Some(deserialize_timeout(10000)),
    );
    let action = Action {
        percentage: deserialize_float_percentage(0.84f32.to_bits()).unwrap(),
        command: deserialize_command("./powersave.sh profile laptop-battery-powersave").unwrap(),
        notify: Some(notify),
    };
    let config = Config::new(Some(120), vec![action], None, None);
    assert_eq!(config.interval, 120);
    assert_eq!(f32::from_bits(config.action[0].percentage.to_bits()), 0.84);
    assert_eq!(
        config.action[0].command,
        Some(vec![
            "./powersave.sh".to_string(),
            "profile".to_string(),
            "laptop-battery-powersave".to_string()
        ])
    );
    let notify = config.action[0].notify.as_ref().unwrap();
    assert_eq!(notify.summary, "Battery discharging");
    assert_eq!(notify.urgency, Urgency::Low);
    assert_eq!(notify.icon, "battery-discharging");
    assert_eq!(notify.timeout, Timeout::Milliseconds(10000));
}

#[test]
fn test_default_values() {
    let config = Config::new(None, vec![rule(0.99)], None, None);
    assert_eq!(config.interval, 60);
}

#[test]
fn test_default_timeout_never_value() {
    let notify = Notify::new(
        String::from("Never Gonna Give You Up"),
        None,
        None,
        None,
        Some(deserialize_timeout(0)),
    );
    assert_eq!(notify.timeout, Timeout::Never);
}

#[test]
fn test_invalid_percentage_values() {
    let test_values = vec![-0.2f32, 42.0];
    for value in test_values.iter() {
        let result = deserialize_float_percentage(value.to_bits());
        assert!(result.is_err());
        assert_eq!(result.unwrap_err().message(), "value must be between 0 and 1");
    }
}

#[test]
fn test_invalid_urgency_values() {
    let string_test_values = vec!["", "Whatever"];
    for value in string_test_values {
        let result = deserialize_urgency(value);
        assert!(result.is_err());
        assert!(result
            .unwrap_err()
            .message()
            .starts_with("Failed to parse notification urgency"));
    }
}

#[test]
fn test_invalid_timeout_values() {
    let notify = Notify::new(String::from(""), None, None, None, Some(deserialize_timeout(-5)));
    assert_eq!(notify.timeout, Timeout::Default);
}

#[test]
fn test_unparsable_command_value() {
    let result = deserialize_command("notify-send 'Oops, I am missing my closing single quote!");
    assert!(result.is_err());
    assert_eq!(
        result.unwrap_err().message(),
        "Failed to split command: missing closing quote"
    );
}

#[test]
fn test_xdg_config_home() {
    let config_home = xdg_config_home(Some(String::from("/home/battered/.config")), None);
    assert_eq!(config_home, "/home/battered/.config");
    let config_home = xdg_config_home(
        Some(String::from("/home/battered/.config")),
        Some(String::from("/home/other")),
    );
    assert_eq!(config_home, "/home/battered/.config");
}

#[test]
fn test_xdg_config_home_from_home_var() {
    let config_home = xdg_config_home(None, Some(String::from("/home/battered")));
    assert_eq!(config_home, "/home/battered/.config");
}

#[test]
fn test_xdg_config_home_from_nothing() {
    let config_home = xdg_config_home(None, None);
    assert_eq!(config_home, "/.config");
}

#[test]
fn test_get_config_from_invalid_path() {
    let text = config_text(FileRead::Text(String::from("")));
    assert_eq!(text, Ok(String::from("")));
    let error = ConfigError::Unparsable(String::from("/dev/null"));
    assert_eq!(error.message(), "Failed to parse config at '/dev/null'");
}

#[test]
fn a_missing_file_counts_as_an_empty_one() {
    assert_eq!(config_text(FileRead::NotFound), Ok(String::from("")));
    assert_eq!(
        config_text(FileRead::Text(String::from("interval = 120\n"))),
        Ok(String::from("interval = 120\n"))
    );
}

#[test]
fn a_file_that_cannot_be_read_is_an_error() {
    let result = config_text(FileRead::Failed(String::from("Permission denied (os error 13)")));
    assert_eq!(
        result,
        Err(ConfigError::Unreadable(String::from("Permission denied (os error 13)")))
    );
    assert_eq!(result.unwrap_err().message(), "Permission denied (os error 13)");
}

#[test]
fn defaults() {
    assert_eq!(default_urgency(), Urgency::Normal);
    assert_eq!(default_icon(), "battery-caution");
    assert_eq!(default_interval(), 60);
    let notify = Notify::new(String::from("Low battery"), None, None, None, None);
    assert_eq!(
        notify,
        Notify {
            summary: String::from("Low battery"),
            body: None,
            urgency: Urgency::Normal,
            icon: String::from("battery-caution"),
            timeout: Timeout::Default,
        }
    );
    let notify = Notify::new(
        String::from("Low battery"),
        Some(String::from("$percentage left")),
        Some(Urgency::Critical),
        Some(String::from("battery-empty")),
        Some(Timeout::Never),
    );
    assert_eq!(
        notify,
        Notify {
            summary: String::from("Low battery"),
            body: Some(String::from("$percentage left")),
            urgency: Urgency::Critical,
            icon: String::from("battery-empty"),
            timeout: Timeout::Never,
        }
    );
}

#[test]
fn a_configuration_keeps_what_it_is_given() {
    let on_ac = Action { command: Some(words(&["true"])), ..rule(0.0) };
    let config = Config::new(
        Some(5),
        vec![rule(0.5), rule(0.2)],
        Some(on_ac),
        Some(String::from("B2")),
    );
    assert_eq!(config.interval, 5);
    assert_eq!(config.action.len(), 2);
    assert_eq!(f32::from_bits(config.action[0].percentage.to_bits()), 0.5);
    assert_eq!(f32::from_bits(config.action[1].percentage.to_bits()), 0.2);
    assert_eq!(config.on_ac.unwrap().command, Some(words(&["true"])));
    assert_eq!(config.serial_number, Some(String::from("B2")));
}

#[test]
fn percentages_between_zero_and_one_are_accepted() {
    for value in [0.0f32, -0.0, 0.5, 0.84, 0.99, 1.0] {
        let fraction = deserialize_float_percentage(value.to_bits()).unwrap();
        assert_eq!(f32::from_bits(fraction.to_bits()), value);
    }
    for value in [-0.2f32, 42.0, 1.5, f32::NAN, f32::INFINITY, -1.0] {
        assert_eq!(
            deserialize_float_percentage(value.to_bits()).unwrap_err(),
            ConfigError::InvalidPercentage
        );
    }
}

#[test]
fn commands_are_split_as_a_shell_would() {
    assert_eq!(deserialize_command("true"), Ok(Some(words(&["true"]))));
    assert_eq!(
        deserialize_command("notify-send 'Battery low' \"now at\" 5\\ %"),
        Ok(Some(words(&["notify-send", "Battery low", "now at", "5 %"])))
    );
    assert_eq!(deserialize_command("true --version"), Ok(Some(words(&["true", "--version"]))));
    assert_eq!(
        deserialize_command("echo \"open"),
        Err(ConfigError::InvalidCommand(String::from("missing closing quote")))
    );
}

#[test]
fn a_line_without_words_names_no_command() {
    for line in ["", " ", " \t\n", "# only a comment", "  # a comment\n", "\\\n"] {
        assert_eq!(deserialize_command(line), Ok(None), "{line:?}");
    }
    assert_eq!(deserialize_command("''"), Ok(Some(words(&[""]))));
    for line in ["true", "a b", "''", "\"\" x", "a # b", "\\"] {
        let command = deserialize_command(line).unwrap().unwrap();
        assert!(command.len() >= 1, "{line:?}");
    }
}

#[test]
fn split_words_become_the_command() {
    assert_eq!(command_from(Ok(words(&["a", "b"]))), Ok(Some(words(&["a", "b"]))));
    assert_eq!(command_from(Ok(words(&[""]))), Ok(Some(words(&[""]))));
    assert_eq!(command_from(Ok(vec![])), Ok(None));
    let refused = command_from(Err(String::from("missing closing quote")));
    assert_eq!(refused, Err(ConfigError::InvalidCommand(String::from("missing closing quote"))));
    assert_eq!(
        refused.unwrap_err().message(),
        "Failed to split command: missing closing quote"
    );
}

#[test]
fn urgencies_are_read_from_their_names() {
    assert_eq!(deserialize_urgency("Low"), Ok(Urgency::Low));
    assert_eq!(deserialize_urgency("low"), Ok(Urgency::Low));
    assert_eq!(deserialize_urgency("Normal"), Ok(Urgency::Normal));
    assert_eq!(deserialize_urgency("Critical"), Ok(Urgency::Critical));
    assert_eq!(deserialize_urgency("CRITICAL"), Ok(Urgency::Critical));
    let refused = deserialize_urgency("Whatever");
    assert!(matches!(refused, Err(ConfigError::InvalidUrgency(_))));
    let message = refused.unwrap_err().message();
    assert!(message.starts_with("Failed to parse notification urgency: "));
    assert!(message.contains("Whatever"));
    assert_ne!(message, "Failed to parse notification urgency: Whatever");
    assert_eq!(deserialize_urgency("Whatever"), deserialize_urgency("Whatever"));
    assert_ne!(deserialize_urgency("Whatever"), deserialize_urgency("whatever"));
}

#[test]
fn a_read_urgency_is_kept() {
    assert_eq!(urgency_from(Ok(Urgency::Low)), Ok(Urgency::Low));
    assert_eq!(urgency_from(Ok(Urgency::Critical)), Ok(Urgency::Critical));
    let refused = urgency_from(Err(String::from("invalid input")));
    assert_eq!(refused, Err(ConfigError::InvalidUrgency(String::from("invalid input"))));
    assert_eq!(
        refused.unwrap_err().message(),
        "Failed to parse notification urgency: invalid input"
    );
}

#[test]
fn timeouts_are_read_from_milliseconds() {
    assert_eq!(deserialize_timeout(10000), Timeout::Milliseconds(10000));
    assert_eq!(deserialize_timeout(1), Timeout::Milliseconds(1));
    assert_eq!(deserialize_timeout(i32::MAX), Timeout::Milliseconds(2147483647));
    assert_eq!(deserialize_timeout(0), Timeout::Never);
    assert_eq!(deserialize_timeout(-1), Timeout::Default);
    assert_eq!(deserialize_timeout(-5), Timeout::Default);
    assert_eq!(deserialize_timeout(i32::MIN), Timeout::Default);
}

#[test]
fn every_error_has_its_words() {
    assert_eq!(ConfigError::InvalidPercentage.message(), "value must be between 0 and 1");
    assert_eq!(
        ConfigError::InvalidCommand(String::from("x")).message(),
        "Failed to split command: x"
    );
    assert_eq!(
        ConfigError::InvalidUrgency(String::from("y")).message(),
        "Failed to parse notification urgency: y"
    );
    assert_eq!(ConfigError::Unreadable(String::from("z")).message(), "z");
    assert_eq!(
        ConfigError::Unparsable(String::from("/etc/battered.toml")).message(),
        "Failed to parse config at '/etc/battered.toml'"
    );
}
