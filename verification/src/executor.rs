//! What firing a rule asks of the desktop and of the process runner, and
//! what the answer of the process runner means.
//!
//! Nothing here shows a notification or starts a process. A fired rule is
//! turned into the effects that the caller has to perform, in their order;
//! the caller hands back how the command ended and is told the outcome.

use vstd::prelude::*;
use crate::config::{clone_words, Action, ActionView, NotifyView, Timeout, Urgency};
use crate::matcher::{ActionSet, Decision};
use crate::template::{fill_template, render, FormatObject, Template};
use crate::text::{extend_str, from_chars, joined, push_joined};

verus! {

/// A notification as it is handed to the desktop: its texts are filled in.
#[derive(Debug, PartialEq, Eq)]
pub struct Notification {
    pub summary: String,
    pub body: String,
    pub icon: String,
    pub urgency: Urgency,
    pub timeout: Timeout,
}

/// What a [`Notification`] holds.
pub struct NotificationView {
    pub summary: Seq<char>,
    pub body: Seq<char>,
    pub icon: Seq<char>,
    pub urgency: Urgency,
    pub timeout: Timeout,
}

impl View for Notification {
    type V = NotificationView;

    open spec fn view(&self) -> NotificationView {
        NotificationView {
            summary: self.summary@,
            body: self.body@,
            icon: self.icon@,
            urgency: self.urgency,
            timeout: self.timeout,
        }
    }
}

/// One thing that the caller has to do for a fired rule.
#[derive(Debug, PartialEq, Eq)]
pub enum Effect {
    /// Show this notification. If that fails, go on all the same.
    Notify(Notification),
    /// Run this command, without a shell, and wait for it.
    Run(Vec<String>),
}

/// What an [`Effect`] holds.
pub enum EffectView {
    Notify(NotificationView),
    Run(Seq<Seq<char>>),
}

impl View for Effect {
    type V = EffectView;

    open spec fn view(&self) -> EffectView {
        match self {
            Effect::Notify(notification) => EffectView::Notify(notification@),
            Effect::Run(words) => EffectView::Run(words.deep_view()),
        }
    }
}

/// What each of the given effects holds.
pub open spec fn effect_views(effects: Seq<Effect>) -> Seq<EffectView> {
    effects.map_values(|e: Effect| e@)
}

/// How the process runner ended a command.
#[derive(Debug, PartialEq, Eq)]
pub enum RunResult {
    /// The process could not be started.
    NotStarted,
    /// The process ran and ended. `code` is its exit code, if it was not
    /// ended by a signal; `status` describes the end in words.
    Exited { code: Option<i32>, status: String },
}

/// What a [`RunResult`] holds.
pub enum RunResultView {
    NotStarted,
    Exited { code: Option<i32>, status: Seq<char> },
}

impl View for RunResult {
    type V = RunResultView;

    open spec fn view(&self) -> RunResultView {
        match self {
            RunResult::NotStarted => RunResultView::NotStarted,
            RunResult::Exited { code, status } => RunResultView::Exited {
                code: *code,
                status: status@,
            },
        }
    }
}

/// How firing a rule ended.
#[derive(Debug, PartialEq, Eq)]
pub enum Outcome {
    /// Nothing failed.
    Succeeded,
    /// The command of the rule failed, for this reason.
    Failed(String),
}

/// What an [`Outcome`] holds.
pub enum OutcomeView {
    Succeeded,
    Failed(Seq<char>),
}

impl View for Outcome {
    type V = OutcomeView;

    open spec fn view(&self) -> OutcomeView {
        match self {
            Outcome::Succeeded => OutcomeView::Succeeded,
            Outcome::Failed(reason) => OutcomeView::Failed(reason@),
        }
    }
}

/// The notification of a rule with its texts filled in from `entries`. A
/// missing body is an empty one.
pub open spec fn rendered(notify: NotifyView, entries: Seq<char>) -> NotificationView {
    NotificationView {
        summary: render(notify.summary, entries),
        body: render(
            match notify.body {
                Some(body) => body,
                None => Seq::empty(),
            },
            entries,
        ),
        icon: notify.icon,
        urgency: notify.urgency,
        timeout: notify.timeout,
    }
}

/// The notification that a rule shows when it fires, if it has one.
pub open spec fn shown(action: ActionView, entries: Seq<char>) -> Option<NotificationView> {
    match action.notify {
        Some(notify) => Some(rendered(notify, entries)),
        None => None,
    }
}

/// The effects of a fired rule, in their order: first the notification, if
/// the rule has one, then the command, if it has one.
pub open spec fn planned(action: ActionView, entries: Seq<char>) -> Seq<EffectView> {
    let notify = match shown(action, entries) {
        Some(notification) => seq![EffectView::Notify(notification)],
        None => Seq::empty(),
    };
    let run = match action.command {
        Some(words) => seq![EffectView::Run(words)],
        None => Seq::empty(),
    };
    notify + run
}

/// Whether a rule can fire: a command, if it has one, names a program.
pub open spec fn runnable(action: ActionView) -> bool {
    action.command matches Some(words) ==> words.len() > 0
}

/// The outcome of a command that ended with `result`. Only a process that
/// ran and left with exit code zero succeeds.
pub open spec fn command_outcome(words: Seq<Seq<char>>, result: RunResultView) -> OutcomeView {
    match result {
        RunResultView::NotStarted => OutcomeView::Failed(
            "Failed to execute '"@ + joined(words, seq![' ']) + "'"@,
        ),
        RunResultView::Exited { code, status } => if code == Some(0i32) {
            OutcomeView::Succeeded
        } else {
            OutcomeView::Failed("Command failed: "@ + status)
        },
    }
}

/// The outcome of a fired rule whose command, if it has one, ended with
/// `result`. A rule without a command succeeds.
pub open spec fn run_outcome(action: ActionView, result: RunResultView) -> OutcomeView {
    match action.command {
        Some(words) => command_outcome(words, result),
        None => OutcomeView::Succeeded,
    }
}

/// Says what the end of a command means for the rule that ran it.
pub fn conclude(command: &Vec<String>, result: &RunResult) -> (outcome: Outcome)
    ensures
        outcome@ == command_outcome(command.deep_view(), result@),
{
    match result {
        RunResult::NotStarted => {
            let mut reason: Vec<char> = Vec::new();
            extend_str(&mut reason, "Failed to execute '");
            push_joined(&mut reason, command);
            extend_str(&mut reason, "'");
            Outcome::Failed(from_chars(&reason))
        },
        RunResult::Exited { code, status } => {
            let succeeded = match code {
                Some(code) => *code == 0,
                None => false,
            };
            if succeeded {
                Outcome::Succeeded
            } else {
                let mut reason: Vec<char> = Vec::new();
                extend_str(&mut reason, "Command failed: ");
                extend_str(&mut reason, status.as_str());
                Outcome::Failed(from_chars(&reason))
            }
        },
    }
}

impl Action {
    /// Whether the rule can fire: its command, if it has one, names a
    /// program.
    pub fn is_runnable(&self) -> (ok: bool)
        ensures
            ok == runnable(self@),
    {
        match &self.command {
            Some(words) => {
                assert(words.deep_view().len() == words@.len());
                words.len() > 0
            },
            None => true,
        }
    }

    /// Fills the placeholders of `input_string` with the entries of
    /// `format_obj`.
    pub fn fill_template<T: Template>(&self, input_string: String, format_obj: &T) -> (out: String)
        ensures
            out@ == render(input_string@, format_obj.entries()),
    {
        fill_template(input_string, format_obj)
    }

    /// The notification that the rule shows when it fires, if it has one.
    pub fn show(&self, format_obj: &FormatObject) -> (notification: Option<Notification>)
        ensures
            match notification {
                Some(notification) => shown(self@, format_obj.entries()) == Some(notification@),
                None => shown(self@, format_obj.entries()) is None,
            },
    {
        match &self.notify {
            Some(notify) => {
                let summary = self.fill_template(notify.summary.clone(), format_obj);
                let body = match &notify.body {
                    Some(body) => body.clone(),
                    None => String::new(),
                };
                let body = self.fill_template(body, format_obj);
                Some(
                    Notification {
                        summary,
                        body,
                        icon: notify.icon.clone(),
                        urgency: notify.urgency,
                        timeout: notify.timeout,
                    },
                )
            },
            None => None,
        }
    }

    /// The outcome of the rule, given how its command ended. For a rule
    /// without a command `result` means nothing.
    pub fn run(&self, result: &RunResult) -> (outcome: Outcome)
        ensures
            outcome@ == run_outcome(self@, result@),
    {
        match &self.command {
            Some(words) => conclude(words, result),
            None => Outcome::Succeeded,
        }
    }
}

/// The effects of firing `action`, in the order in which they have to be
/// performed. A rule whose command names no program cannot be fired.
pub fn trigger_action(action: &Action, format_obj: &FormatObject) -> (effects: Vec<Effect>)
    requires
        runnable(action@),
    ensures
        effect_views(effects@) == planned(action@, format_obj.entries()),
{
    let mut effects: Vec<Effect> = Vec::new();
    if action.has_notify() {
        match action.show(format_obj) {
            Some(notification) => {
                effects.push(Effect::Notify(notification));
            },
            None => {},
        }
    }
    match &action.command {
        Some(words) => {
            effects.push(Effect::Run(clone_words(words)));
        },
        None => {},
    }
    assert(effect_views(effects@) =~= planned(action@, format_obj.entries()));
    effects
}

/// The notification that tells the user of a failed rule.
pub fn failure_notification(reason: &str) -> (notification: Notification)
    ensures
        notification@ == (NotificationView {
            summary: "Battered action failed"@,
            body: reason@,
            icon: Seq::empty(),
            urgency: Urgency::Critical,
            timeout: Timeout::Default,
        }),
{
    Notification {
        summary: String::from_str("Battered action failed"),
        body: String::from_str(reason),
        icon: String::new(),
        urgency: Urgency::Critical,
        timeout: Timeout::Default,
    }
}

/// The rule that a decision fires, if any. Going back on AC power fires the
/// rule that is configured for it whatever the charge is: its threshold is
/// not evaluated.
pub open spec fn fired(
    decision: Decision,
    actions: Seq<ActionView>,
    on_ac: Option<ActionView>,
) -> Option<ActionView> {
    match decision {
        Decision::Idle => None,
        Decision::Fire(index) => if index < actions.len() {
            Some(actions[index as int])
        } else {
            None
        },
        Decision::Reconnected => on_ac,
    }
}

/// The rule that `decision` fires: the rule at the given index, or the rule
/// for going back on AC power if one is configured.
pub fn fired_action<'a>(
    decision: Decision,
    actions: &'a ActionSet,
    on_ac: &'a Option<Action>,
) -> (action: Option<&'a Action>)
    ensures
        match action {
            Some(action) => fired(
                decision,
                actions@,
                match on_ac {
                    Some(on_ac) => Some(on_ac@),
                    None => None,
                },
            ) == Some(action@),
            None => fired(
                decision,
                actions@,
                match on_ac {
                    Some(on_ac) => Some(on_ac@),
                    None => None,
                },
            ) is None,
        },
{
    match decision {
        Decision::Idle => None,
        Decision::Fire(index) => actions.get(index),
        Decision::Reconnected => match on_ac {
            Some(on_ac) => Some(on_ac),
            None => None,
        },
    }
}

/// A rule with neither notification nor command asks for nothing and
/// succeeds, however the process runner answers.
pub proof fn lemma_null_action(action: ActionView, entries: Seq<char>, result: RunResultView)
    requires
        action.notify is None,
        action.command is None,
    ensures
        planned(action, entries) == Seq::<EffectView>::empty(),
        run_outcome(action, result) == OutcomeView::Succeeded,
{
    assert(planned(action, entries) =~= Seq::<EffectView>::empty());
}

/// A command succeeds if and only if its process left with exit code zero.
/// Any other exit code, the end by a signal and a process that did not start
/// are failures.
pub proof fn lemma_exit_code_decides(words: Seq<Seq<char>>, result: RunResultView)
    ensures
        command_outcome(words, result) == OutcomeView::Succeeded <==> (result matches RunResultView::Exited {
            code: Some(code),
            ..
        } && code == 0),
{
}

/// The notification of a rule comes before its command.
pub proof fn lemma_notification_first(action: ActionView, entries: Seq<char>)
    requires
        action.notify is Some,
        action.command is Some,
    ensures
        planned(action, entries).len() == 2,
        planned(action, entries)[0] is Notify,
        planned(action, entries)[1] is Run,
{
}

} // verus!
