//! The configuration: the rules that the watchdog applies, and the checks
//! that every value of a configuration file has to pass.

use vstd::prelude::*;
use crate::fraction::Fraction;
use crate::text::{extend_str, from_chars};

verus! {

/// How pressing a notification is.
#[derive(Clone, Copy, Debug, PartialEq, Eq, Structural)]
pub enum Urgency {
    Low,
    Normal,
    Critical,
}

/// How long a notification stays.
#[derive(Clone, Copy, Debug, PartialEq, Eq, Structural)]
pub enum Timeout {
    /// As long as the notification server sees fit.
    Default,
    /// Until the user closes it.
    Never,
    /// This many milliseconds.
    Milliseconds(u32),
}

/// The notification of a rule. Summary and body are templates.
#[derive(Debug, PartialEq, Eq)]
pub struct Notify {
    pub summary: String,
    pub body: Option<String>,
    pub urgency: Urgency,
    pub icon: String,
    pub timeout: Timeout,
}

/// What a [`Notify`] holds.
pub struct NotifyView {
    pub summary: Seq<char>,
    pub body: Option<Seq<char>>,
    pub urgency: Urgency,
    pub icon: Seq<char>,
    pub timeout: Timeout,
}

/// What an optional string holds.
pub open spec fn text_of(s: Option<String>) -> Option<Seq<char>> {
    match s {
        Some(s) => Some(s@),
        None => None,
    }
}

/// A copy of the given words.
pub fn clone_words(words: &Vec<String>) -> (copy: Vec<String>)
    ensures
        copy.deep_view() == words.deep_view(),
{
    let mut copy: Vec<String> = Vec::new();
    let mut i: usize = 0;
    while i < words.len()
        invariant
            i <= words.len(),
            copy.deep_view() == words.deep_view().take(i as int),
        decreases words.len() - i,
    {
        let ghost before = copy.deep_view();
        copy.push(words[i].clone());
        assert(copy.deep_view() =~= before.push(words@[i as int]@));
        assert(words.deep_view().take(i + 1) =~= words.deep_view().take(i as int).push(
            words@[i as int]@,
        ));
        i += 1;
    }
    assert(words.deep_view().take(words@.len() as int) == words.deep_view());
    copy
}

impl Clone for Notify {
    fn clone(&self) -> (copy: Notify)
        ensures
            copy@ == self@,
    {
        Notify {
            summary: self.summary.clone(),
            body: match &self.body {
                Some(body) => Some(body.clone()),
                None => None,
            },
            urgency: self.urgency,
            icon: self.icon.clone(),
            timeout: self.timeout,
        }
    }
}

impl View for Notify {
    type V = NotifyView;

    open spec fn view(&self) -> NotifyView {
        NotifyView {
            summary: self.summary@,
            body: text_of(self.body),
            urgency: self.urgency,
            icon: self.icon@,
            timeout: self.timeout,
        }
    }
}

/// One rule: a threshold, and what happens when the charge crosses it. The
/// command is an argument vector; its first word is the program.
#[derive(Debug)]
pub struct Action {
    pub percentage: Fraction,
    pub command: Option<Vec<String>>,
    pub notify: Option<Notify>,
}

/// What an [`Action`] holds.
pub struct ActionView {
    pub threshold: nat,
    pub command: Option<Seq<Seq<char>>>,
    pub notify: Option<NotifyView>,
}

impl Clone for Action {
    fn clone(&self) -> (copy: Action)
        ensures
            copy@ == self@,
    {
        Action {
            percentage: self.percentage,
            command: match &self.command {
                Some(words) => Some(clone_words(words)),
                None => None,
            },
            notify: match &self.notify {
                Some(notify) => Some(notify.clone()),
                None => None,
            },
        }
    }
}

impl View for Action {
    type V = ActionView;

    open spec fn view(&self) -> ActionView {
        ActionView {
            threshold: self.percentage.key(),
            command: match self.command {
                Some(words) => Some(words.deep_view()),
                None => None,
            },
            notify: match self.notify {
                Some(notify) => Some(notify@),
                None => None,
            },
        }
    }
}

/// The side of its threshold on which a rule applies.
#[derive(Clone, Copy, Debug, PartialEq, Eq, Structural)]
pub enum Polarity {
    /// While discharging: the charge is strictly below the threshold.
    Below,
    /// On AC power: the charge has reached the threshold. The rule for
    /// going back on AC power has this side; the matcher fires that rule on
    /// the change alone and does not look at its threshold.
    AtOrAbove,
}

/// Whether a rule with the given threshold applies to the given charge.
pub open spec fn applies(polarity: Polarity, charge: nat, threshold: nat) -> bool {
    match polarity {
        Polarity::Below => charge < threshold,
        Polarity::AtOrAbove => charge >= threshold,
    }
}

impl Action {
    /// Whether the rule applies to `value`, read with the given polarity.
    pub fn applies(&self, polarity: Polarity, value: &Fraction) -> (hit: bool)
        ensures
            hit == applies(polarity, value.key(), self@.threshold),
    {
        match polarity {
            Polarity::Below => value.lt(&self.percentage),
            Polarity::AtOrAbove => !value.lt(&self.percentage),
        }
    }

    /// Whether `value` has fallen below the threshold of the rule.
    pub fn exceeds_threshold(&self, value: &Fraction) -> (hit: bool)
        ensures
            hit == (value.key() < self@.threshold),
    {
        self.applies(Polarity::Below, value)
    }

    /// Whether the rule shows a notification.
    pub fn has_notify(&self) -> (has: bool)
        ensures
            has == (self@.notify is Some),
    {
        self.notify.is_some()
    }
}

/// What the watchdog is configured to do.
#[derive(Debug)]
pub struct Config {
    /// The seconds between two readings of the battery.
    pub interval: u64,
    /// The rules of a discharging battery, as they were written down.
    pub action: Vec<Action>,
    /// The rule for going back on AC power.
    pub on_ac: Option<Action>,
    /// The serial number of the battery to watch.
    pub serial_number: Option<String>,
}

/// Why a configuration is refused.
#[derive(Debug, PartialEq, Eq)]
pub enum ConfigError {
    /// A threshold is not a number between zero and one.
    InvalidPercentage,
    /// A command cannot be split into words, for this reason.
    InvalidCommand(String),
    /// An urgency has no known name, as this detail says.
    InvalidUrgency(String),
    /// The configuration file is there and cannot be read, for this reason.
    Unreadable(String),
    /// The file at this path does not hold a configuration.
    Unparsable(String),
}

/// What a [`ConfigError`] holds.
pub enum ConfigErrorView {
    InvalidPercentage,
    InvalidCommand(Seq<char>),
    InvalidUrgency(Seq<char>),
    Unreadable(Seq<char>),
    Unparsable(Seq<char>),
}

impl View for ConfigError {
    type V = ConfigErrorView;

    open spec fn view(&self) -> ConfigErrorView {
        match self {
            ConfigError::InvalidPercentage => ConfigErrorView::InvalidPercentage,
            ConfigError::InvalidCommand(detail) => ConfigErrorView::InvalidCommand(detail@),
            ConfigError::InvalidUrgency(detail) => ConfigErrorView::InvalidUrgency(detail@),
            ConfigError::Unreadable(reason) => ConfigErrorView::Unreadable(reason@),
            ConfigError::Unparsable(path) => ConfigErrorView::Unparsable(path@),
        }
    }
}

/// The words of a [`ConfigError`].
pub open spec fn config_error_message(error: ConfigErrorView) -> Seq<char> {
    match error {
        ConfigErrorView::InvalidPercentage => "value must be between 0 and 1"@,
        ConfigErrorView::InvalidCommand(detail) => "Failed to split command: "@ + detail,
        ConfigErrorView::InvalidUrgency(detail) => "Failed to parse notification urgency: "@
            + detail,
        ConfigErrorView::Unreadable(reason) => reason,
        ConfigErrorView::Unparsable(path) => "Failed to parse config at '"@ + path + "'"@,
    }
}

fn prefixed(prefix: &str, detail: &str, suffix: &str) -> (text: String)
    ensures
        text@ == prefix@ + detail@ + suffix@,
{
    let mut text: Vec<char> = Vec::new();
    extend_str(&mut text, prefix);
    extend_str(&mut text, detail);
    extend_str(&mut text, suffix);
    from_chars(&text)
}

impl ConfigError {
    /// The error in words.
    pub fn message(&self) -> (text: String)
        ensures
            text@ == config_error_message(self@),
    {
        match self {
            ConfigError::InvalidPercentage => String::from_str("value must be between 0 and 1"),
            ConfigError::InvalidCommand(detail) => {
                let text = prefixed("Failed to split command: ", detail.as_str(), "");
                proof {
                    reveal_strlit("");
                    assert(text@ =~= "Failed to split command: "@ + detail@);
                }
                text
            },
            ConfigError::InvalidUrgency(detail) => {
                let text = prefixed("Failed to parse notification urgency: ", detail.as_str(), "");
                proof {
                    reveal_strlit("");
                    assert(text@ =~= "Failed to parse notification urgency: "@ + detail@);
                }
                text
            },
            ConfigError::Unreadable(reason) => reason.clone(),
            ConfigError::Unparsable(path) => prefixed(
                "Failed to parse config at '",
                path.as_str(),
                "'",
            ),
        }
    }
}

/// The urgency of a notification that names none.
pub fn default_urgency() -> (urgency: Urgency)
    ensures
        urgency == Urgency::Normal,
{
    Urgency::Normal
}

/// The icon of a notification that names none.
pub fn default_icon() -> (icon: String)
    ensures
        icon@ == "battery-caution"@,
{
    String::from_str("battery-caution")
}

/// The seconds between two readings where the configuration names none.
pub fn default_interval() -> (seconds: u64)
    ensures
        seconds == 60,
{
    60
}

/// Checks a threshold, given as the bit pattern of a single-precision
/// number: it has to lie between zero and one.
pub fn deserialize_float_percentage(bits: u32) -> (checked: Result<Fraction, ConfigError>)
    ensures
        match checked {
            Ok(fraction) => Fraction::valid_bits(bits) && fraction.key() == Fraction::key_of_bits(
                bits,
            ),
            Err(error) => !Fraction::valid_bits(bits) && error@
                == ConfigErrorView::InvalidPercentage,
        },
{
    match Fraction::from_bits(bits) {
        Some(fraction) => Ok(fraction),
        None => Err(ConfigError::InvalidPercentage),
    }
}

/// The error of `shell_words::split`. Nothing of it is read but its text.
#[verifier::external_type_specification]
#[verifier::external_body]
pub struct ExParseError(shell_words::ParseError);

/// The words into which `shell_words::split` splits a command line, as a
/// shell would; none where a quote is left open.
pub uninterp spec fn shell_split(line: Seq<char>) -> Option<Seq<Seq<char>>>;

/// The urgency that `notify_rust::Urgency::try_from` reads from a name, if it
/// knows the name.
pub uninterp spec fn urgency_named(name: Seq<char>) -> Option<Urgency>;

/// The text of the error with which `notify_rust::Urgency::try_from` refuses
/// a name that it does not know, as the error's `Display` writes it.
pub uninterp spec fn urgency_refusal(name: Seq<char>) -> Seq<char>;

/// Calls `shell_words::split`. The result is a function of the line alone: the
/// words on success, an error where the line cannot be split.
#[verifier::external_body]
fn split_words(line: &str) -> (split: Result<Vec<String>, shell_words::ParseError>)
    ensures
        match split {
            Ok(words) => shell_split(line@) == Some(words.deep_view()),
            Err(_) => shell_split(line@) is None,
        },
{
    shell_words::split(line)
}

/// Writes a `shell_words::ParseError` out with its `Display`, which has one
/// text for every such error.
#[verifier::external_body]
fn parse_error_text(error: &shell_words::ParseError) -> (text: String)
    ensures
        text@ == "missing closing quote"@,
{
    error.to_string()
}

/// Calls `notify_rust::Urgency::try_from` on a name, and writes the error of
/// a refused name out with its `Display`. Both are functions of the name
/// alone: the urgency for a name that is known, the text of the error for one
/// that is not.
#[verifier::external_body]
fn urgency_from_name(name: &str) -> (parsed: Result<Urgency, String>)
    ensures
        match parsed {
            Ok(urgency) => urgency_named(name@) == Some(urgency),
            Err(text) => urgency_named(name@) is None && text@ == urgency_refusal(name@),
        },
{
    match notify_rust::Urgency::try_from(name) {
        Ok(notify_rust::Urgency::Low) => Ok(Urgency::Low),
        Ok(notify_rust::Urgency::Normal) => Ok(Urgency::Normal),
        Ok(notify_rust::Urgency::Critical) => Ok(Urgency::Critical),
        Err(error) => Err(error.to_string()),
    }
}

/// Calls `notify_rust::Timeout::from` on a number of milliseconds: a negative
/// number leaves the timeout to the server, zero means never, a positive
/// number is the timeout.
#[verifier::external_body]
fn timeout_from_millis(value: i32) -> (timeout: Timeout)
    ensures
        value < 0 ==> timeout == Timeout::Default,
        value == 0 ==> timeout == Timeout::Never,
        value > 0 ==> timeout == Timeout::Milliseconds(value as u32),
{
    match notify_rust::Timeout::from(value) {
        notify_rust::Timeout::Default => Timeout::Default,
        notify_rust::Timeout::Never => Timeout::Never,
        notify_rust::Timeout::Milliseconds(millis) => Timeout::Milliseconds(millis),
    }
}

/// The command that the words of a command line make up. A command is a
/// program and its arguments: a line without words names no command.
pub open spec fn command_of(words: Seq<Seq<char>>) -> Option<Seq<Seq<char>>> {
    if words.len() == 0 {
        None
    } else {
        Some(words)
    }
}

/// What an optional command holds.
pub open spec fn words_of(command: Option<Vec<String>>) -> Option<Seq<Seq<char>>> {
    match command {
        Some(words) => Some(words.deep_view()),
        None => None,
    }
}

/// What splitting a command line means for the configuration: the words are
/// the command, no words are no command, a failure refuses the
/// configuration. A command that comes back has at least one word.
pub fn command_from(split: Result<Vec<String>, String>) -> (command: Result<
    Option<Vec<String>>,
    ConfigError,
>)
    ensures
        match split {
            Ok(words) => command matches Ok(kept) && words_of(kept) == command_of(
                words.deep_view(),
            ),
            Err(detail) => command matches Err(error) && error@ == ConfigErrorView::InvalidCommand(
                detail@,
            ),
        },
        command matches Ok(Some(kept)) ==> kept@.len() >= 1,
{
    match split {
        Ok(words) => {
            assert(words.deep_view().len() == words@.len());
            if words.len() == 0 {
                Ok(None)
            } else {
                Ok(Some(words))
            }
        },
        Err(detail) => Err(ConfigError::InvalidCommand(detail)),
    }
}

/// Splits a command line into the words of a command. A line that is empty,
/// blank or only a comment names no command.
pub fn deserialize_command(value: &str) -> (command: Result<Option<Vec<String>>, ConfigError>)
    ensures
        match shell_split(value@) {
            Some(words) => command matches Ok(kept) && words_of(kept) == command_of(words),
            None => command matches Err(error) && error@ == ConfigErrorView::InvalidCommand(
                "missing closing quote"@,
            ),
        },
        command matches Ok(Some(kept)) ==> kept@.len() >= 1,
{
    match split_words(value) {
        Ok(words) => command_from(Ok(words)),
        Err(error) => command_from(Err(parse_error_text(&error))),
    }
}

/// What reading an urgency means for the configuration: a known name is the
/// urgency, an unknown one refuses the configuration.
pub fn urgency_from(parsed: Result<Urgency, String>) -> (urgency: Result<Urgency, ConfigError>)
    ensures
        match parsed {
            Ok(known) => urgency == Ok::<Urgency, ConfigError>(known),
            Err(detail) => urgency matches Err(error) && error@ == ConfigErrorView::InvalidUrgency(
                detail@,
            ),
        },
{
    match parsed {
        Ok(known) => Ok(known),
        Err(detail) => Err(ConfigError::InvalidUrgency(detail)),
    }
}

/// Reads an urgency from its name.
pub fn deserialize_urgency(value: &str) -> (urgency: Result<Urgency, ConfigError>)
    ensures
        match urgency_named(value@) {
            Some(known) => urgency == Ok::<Urgency, ConfigError>(known),
            None => urgency matches Err(error) && error@ == ConfigErrorView::InvalidUrgency(
                urgency_refusal(value@),
            ),
        },
{
    urgency_from(urgency_from_name(value))
}

/// The timeout that a number of milliseconds stands for: a negative number
/// leaves it to the notification server, zero means never.
pub open spec fn timeout_of(value: i32) -> Timeout {
    if value < 0 {
        Timeout::Default
    } else if value == 0 {
        Timeout::Never
    } else {
        Timeout::Milliseconds(value as u32)
    }
}

/// Reads a timeout from a number of milliseconds.
pub fn deserialize_timeout(value: i32) -> (timeout: Timeout)
    ensures
        timeout == timeout_of(value),
{
    timeout_from_millis(value)
}

impl Notify {
    /// A notification with the given summary. What is not given is the
    /// default: no body, normal urgency, the icon of a low battery, the
    /// timeout of the server.
    pub fn new(
        summary: String,
        body: Option<String>,
        urgency: Option<Urgency>,
        icon: Option<String>,
        timeout: Option<Timeout>,
    ) -> (notify: Notify)
        ensures
            notify@ == (NotifyView {
                summary: summary@,
                body: text_of(body),
                urgency: match urgency {
                    Some(urgency) => urgency,
                    None => Urgency::Normal,
                },
                icon: match icon {
                    Some(icon) => icon@,
                    None => "battery-caution"@,
                },
                timeout: match timeout {
                    Some(timeout) => timeout,
                    None => Timeout::Default,
                },
            }),
    {
        Notify {
            summary,
            body,
            urgency: match urgency {
                Some(urgency) => urgency,
                None => default_urgency(),
            },
            icon: match icon {
                Some(icon) => icon,
                None => default_icon(),
            },
            timeout: match timeout {
                Some(timeout) => timeout,
                None => Timeout::Default,
            },
        }
    }
}

impl Config {
    /// A configuration with the given rules. Where no interval is given the
    /// battery is read once a minute.
    pub fn new(
        interval: Option<u64>,
        action: Vec<Action>,
        on_ac: Option<Action>,
        serial_number: Option<String>,
    ) -> (config: Config)
        ensures
            config.interval == (match interval {
                Some(seconds) => seconds,
                None => 60,
            }),
            config.action == action,
            config.on_ac == on_ac,
            config.serial_number == serial_number,
    {
        Config {
            interval: match interval {
                Some(seconds) => seconds,
                None => default_interval(),
            },
            action,
            on_ac,
            serial_number,
        }
    }
}

/// The directory of the user's configuration files: the one that is named,
/// else `.config` in the home directory, else `/.config`.
pub open spec fn config_home(named: Option<Seq<char>>, home: Option<Seq<char>>) -> Seq<char> {
    match named {
        Some(dir) => dir,
        None => (match home {
            Some(home) => home,
            None => Seq::empty(),
        }) + "/.config"@,
    }
}

/// The directory of the user's configuration files, from the values of the
/// variables `XDG_CONFIG_HOME` and `HOME`.
pub fn xdg_config_home(named: Option<String>, home: Option<String>) -> (dir: String)
    ensures
        dir@ == config_home(text_of(named), text_of(home)),
{
    match named {
        Some(dir) => dir,
        None => {
            let home = match home {
                Some(home) => home,
                None => String::new(),
            };
            let mut dir: Vec<char> = Vec::new();
            extend_str(&mut dir, home.as_str());
            extend_str(&mut dir, "/.config");
            from_chars(&dir)
        },
    }
}

/// What came of reading the configuration file.
#[derive(Debug, PartialEq, Eq)]
pub enum FileRead {
    /// The file holds this text.
    Text(String),
    /// There is no such file.
    NotFound,
    /// The file is there and could not be read, for this reason.
    Failed(String),
}

/// The text to take the configuration from. A file that is not there counts
/// as an empty one; a file that cannot be read is an error.
pub fn config_text(read: FileRead) -> (text: Result<String, ConfigError>)
    ensures
        match read {
            FileRead::Text(found) => text matches Ok(kept) && kept@ == found@,
            FileRead::NotFound => text matches Ok(kept) && kept@ == Seq::<char>::empty(),
            FileRead::Failed(reason) => text matches Err(error) && error@
                == ConfigErrorView::Unreadable(reason@),
        },
{
    match read {
        FileRead::Text(found) => Ok(found),
        FileRead::NotFound => Ok(String::new()),
        FileRead::Failed(reason) => Err(ConfigError::Unreadable(reason)),
    }
}


} // verus!
