use battered::config::{Action, Notify, Timeout, Urgency};
use battered::executor::{
    conclude, failure_notification, fired_action, trigger_action, Effect, Notification, Outcome,
    RunResult,
};
use battered::fraction::Fraction;
use battered::matcher::{ActionSet, Decision};
use battered::template::FormatObject;

fn fraction(value: f32) -> Fraction {
    Fraction::from_bits(value.to_bits()).unwrap()
}

fn notify(summary: &str, body: Option<&str>) -> Notify {
    Notify {
        summary: String::from(summary),
        body: body.map(String::from),
        urgency: Urgency::Low,
        icon: String::from(""),
        timeout: Timeout::Default,
    }
}

fn words(command: &[&str]) -> Vec<String> {
    command.iter().map(|w| String::from(*w)).collect()
}

fn exited(code: i32) -> RunResult {
    RunResult::Exited { code: Some(code), status: format!("exit status: {code}") }
}

/// Plays the desktop and the process runner: counts what it is asked to do
/// and lets every command end as `result` says.
struct MockAction {
    show_call_count: usize,
    run_call_count: usize,
}

fn perform(action: &Action, effects: &[Effect], mock: &mut MockAction, result: RunResult) -> Outcome {
    let mut ended = RunResult::NotStarted;
    for effect in effects {
        match effect {
            Effect::Notify(_) => mock.show_call_count += 1,
            Effect::Run(_) => {
                mock.run_call_count += 1;
                ended = result;
                break;
            }
        }
    }
    action.run(&ended)
}

#[test]
fn test_has_notify() {
    let action_w_notify =
        Action { percentage: fraction(0.5), command: None, notify: Some(notify("", None)) };
    let has_notify = action_w_notify.has_notify();
    assert_eq!(has_notify, true);
}

#[test]
fn test_has_no_notify() {
    let action_w_notify = Action { percentage: fraction(0.5), command: None, notify: None };
    let has_notify = action_w_notify.has_notify();
    assert_eq!(has_notify, false);
}

#[test]
fn test_threshold_without_notification() {
    let action =
        Action { percentage: fraction(0.5), command: Some(words(&["true"])), notify: None };
    let mut mock = MockAction { show_call_count: 0, run_call_count: 0 };
    let format_obj = FormatObject { percentage: 50 };
    let effects = trigger_action(&action, &format_obj);
    let result = perform(&action, &effects, &mut mock, exited(0));
    assert_eq!(result, Outcome::Succeeded);
    assert_eq!(mock.show_call_count, 0);
    assert_eq!(mock.run_call_count, 1);
}

#[test]
fn test_threshold_with_notification() {
    let action = Action {
        percentage: fraction(0.5),
        command: Some(words(&["true"])),
        notify: Some(notify("", None)),
    };
    let mut mock = MockAction { show_call_count: 0, run_call_count: 0 };
    let format_obj = FormatObject { percentage: 50 };
    let effects = trigger_action(&action, &format_obj);
    let result = perform(&action, &effects, &mut mock, exited(0));
    assert_eq!(result, Outcome::Succeeded);
    assert_eq!(mock.show_call_count, 1);
    assert_eq!(mock.run_call_count, 1);
}

#[test]
fn test_successful_action() {
    let action =
        Action { percentage: fraction(0.5), notify: None, command: Some(words(&["true"])) };
    let format_obj = FormatObject { percentage: 50 };
    let effects = trigger_action(&action, &format_obj);
    assert_eq!(effects, vec![Effect::Run(words(&["true"]))]);
    let result = action.run(&exited(0));
    assert_eq!(result, Outcome::Succeeded);
}

#[test]
fn test_no_action() {
    let action = Action { percentage: fraction(0.5), notify: None, command: None };
    let format_obj = FormatObject { percentage: 50 };
    let effects = trigger_action(&action, &format_obj);
    assert_eq!(effects, vec![]);
    let result = action.run(&RunResult::NotStarted);
    assert_eq!(result, Outcome::Succeeded);
}

#[test]
fn test_failing_action() {
    let action =
        Action { percentage: fraction(0.5), notify: None, command: Some(words(&["false"])) };
    let format_obj = FormatObject { percentage: 50 };
    let effects = trigger_action(&action, &format_obj);
    assert_eq!(effects, vec![Effect::Run(words(&["false"]))]);
    let result = action.run(&exited(1));
    assert_eq!(result, Outcome::Failed(String::from("Command failed: exit status: 1")));
}

#[test]
fn test_successful_on_ac_action() {
    let action =
        Action { percentage: fraction(0.0), notify: None, command: Some(words(&["true"])) };
    let format_obj = FormatObject { percentage: 50 };
    let effects = trigger_action(&action, &format_obj);
    assert_eq!(effects, vec![Effect::Run(words(&["true"]))]);
    let result = action.run(&exited(0));
    assert_eq!(result, Outcome::Succeeded);
}

#[test]
fn test_no_on_ac_action() {
    let action = Action { percentage: fraction(0.1), notify: None, command: None };
    let format_obj = FormatObject { percentage: 50 };
    let effects = trigger_action(&action, &format_obj);
    assert_eq!(effects, vec![]);
    let result = action.run(&exited(1));
    assert_eq!(result, Outcome::Succeeded);
}

#[test]
fn test_failing_on_ac_action() {
    let action =
        Action { percentage: fraction(0.0), notify: None, command: Some(words(&["false"])) };
    let format_obj = FormatObject { percentage: 50 };
    let effects = trigger_action(&action, &format_obj);
    assert_eq!(effects, vec![Effect::Run(words(&["false"]))]);
    let result = action.run(&exited(1));
    assert_eq!(result, Outcome::Failed(String::from("Command failed: exit status: 1")));
}

#[test]
fn a_rule_with_an_empty_command_cannot_fire() {
    let silent = Action { percentage: fraction(0.5), notify: None, command: None };
    assert!(silent.is_runnable());
    let named =
        Action { percentage: fraction(0.5), notify: None, command: Some(words(&["true"])) };
    assert!(named.is_runnable());
    let empty = Action { percentage: fraction(0.5), notify: None, command: Some(words(&[])) };
    assert!(!empty.is_runnable());
}

#[test]
fn the_notification_comes_before_the_command() {
    let action = Action {
        percentage: fraction(0.2),
        command: Some(words(&["systemctl", "suspend"])),
        notify: Some(Notify {
            summary: String::from("Battery at $percentage%!"),
            body: Some(String::from("Suspending at $percentage")),
            urgency: Urgency::Critical,
            icon: String::from("battery-caution"),
            timeout: Timeout::Milliseconds(10000),
        }),
    };
    let effects = trigger_action(&action, &FormatObject { percentage: 19 });
    assert_eq!(
        effects,
        vec![
            Effect::Notify(Notification {
                summary: String::from("Battery at 19%!"),
                body: String::from("Suspending at 19"),
                icon: String::from("battery-caution"),
                urgency: Urgency::Critical,
                timeout: Timeout::Milliseconds(10000),
            }),
            Effect::Run(words(&["systemctl", "suspend"])),
        ]
    );
}

#[test]
fn a_missing_body_is_shown_empty() {
    let action = Action {
        percentage: fraction(0.2),
        command: None,
        notify: Some(notify("$percentage percent", None)),
    };
    let shown = action.show(&FormatObject { percentage: 3 });
    assert_eq!(
        shown,
        Some(Notification {
            summary: String::from("3 percent"),
            body: String::from(""),
            icon: String::from(""),
            urgency: Urgency::Low,
            timeout: Timeout::Default,
        })
    );
    let silent = Action { percentage: fraction(0.2), command: None, notify: None };
    assert_eq!(silent.show(&FormatObject { percentage: 3 }), None);
}

#[test]
fn only_exit_code_zero_succeeds() {
    let command = words(&["./powersave.sh", "profile", "laptop-battery-powersave"]);
    assert_eq!(conclude(&command, &exited(0)), Outcome::Succeeded);
    assert_eq!(
        conclude(&command, &exited(1)),
        Outcome::Failed(String::from("Command failed: exit status: 1"))
    );
    assert_eq!(
        conclude(&command, &exited(-1)),
        Outcome::Failed(String::from("Command failed: exit status: -1"))
    );
    assert_eq!(
        conclude(
            &command,
            &RunResult::Exited { code: None, status: String::from("signal: 9 (SIGKILL)") }
        ),
        Outcome::Failed(String::from("Command failed: signal: 9 (SIGKILL)"))
    );
}

#[test]
fn a_command_that_did_not_start_fails() {
    assert_eq!(
        conclude(
            &words(&["./powersave.sh", "profile", "laptop-battery-powersave"]),
            &RunResult::NotStarted
        ),
        Outcome::Failed(String::from(
            "Failed to execute './powersave.sh profile laptop-battery-powersave'"
        ))
    );
    assert_eq!(
        conclude(&words(&["true"]), &RunResult::NotStarted),
        Outcome::Failed(String::from("Failed to execute 'true'"))
    );
    assert_eq!(
        conclude(&words(&[]), &RunResult::NotStarted),
        Outcome::Failed(String::from("Failed to execute ''"))
    );
    assert_eq!(
        conclude(&words(&["a", "", "b c"]), &RunResult::NotStarted),
        Outcome::Failed(String::from("Failed to execute 'a  b c'"))
    );
}

#[test]
fn a_failed_rule_is_told_with_a_critical_notification() {
    assert_eq!(
        failure_notification("Command failed: exit status: 1"),
        Notification {
            summary: String::from("Battered action failed"),
            body: String::from("Command failed: exit status: 1"),
            icon: String::from(""),
            urgency: Urgency::Critical,
            timeout: Timeout::Default,
        }
    );
}

#[test]
fn a_decision_names_the_rule_that_fires() {
    let actions = ActionSet::new(vec![
        Action { percentage: fraction(0.5), command: Some(words(&["half"])), notify: None },
        Action { percentage: fraction(0.2), command: Some(words(&["low"])), notify: None },
    ]);
    let on_ac =
        Some(Action { percentage: fraction(0.0), command: Some(words(&["ac"])), notify: None });
    let command_of = |decision: Decision, on_ac: &Option<Action>| {
        fired_action(decision, &actions, on_ac).map(|action| action.command.clone().unwrap())
    };
    assert_eq!(command_of(Decision::Idle, &on_ac), None);
    assert_eq!(command_of(Decision::Fire(0), &on_ac), Some(words(&["low"])));
    assert_eq!(command_of(Decision::Fire(1), &on_ac), Some(words(&["half"])));
    assert_eq!(command_of(Decision::Fire(2), &on_ac), None);
    assert_eq!(command_of(Decision::Reconnected, &on_ac), Some(words(&["ac"])));
    assert_eq!(command_of(Decision::Reconnected, &None), None);
}
