//! Relay of a completed alert recording: the filter rules that pick an
//! action per event code, and the plan of audio segments handed to the
//! external muxer.
//!
//! The muxer and the relay sink themselves run outside the library;
//! they receive the plan this module builds.

use crate::util::str_eq;
use vstd::prelude::*;

verus! {

/// What to do with a completed alert whose event code matched a rule.
#[derive(Clone, Copy, Debug, PartialEq, Eq, Structural)]
pub enum FilterAction {
    /// Re-broadcast the produced audio bundle.
    Relay,
    /// Keep the recording, but do not relay.
    Log,
    /// Do nothing further.
    Ignore,
}

/// One relay filter rule: a name, the event-code pattern it matches,
/// and the action it selects.
#[derive(Clone, Debug)]
pub struct FilterRule {
    pub name: String,
    pub pattern: String,
    pub action: FilterAction,
}

/// The index of the first rule whose pattern equals the event code.
pub open spec fn spec_match_filter(rules: Seq<FilterRule>, code: Seq<char>) -> Option<int> {
    if exists|i: int| 0 <= i < rules.len() && #[trigger] rules[i].pattern@ == code {
        Some(choose|i: int|
            0 <= i < rules.len() && #[trigger] rules[i].pattern@ == code && forall|j: int|
                0 <= j < i ==> #[trigger] rules[j].pattern@ != code)
    } else {
        None
    }
}

/// Finds the first rule matching an event code, if any.
pub fn match_filter<'a>(rules: &'a Vec<FilterRule>, event_code: &str) -> (r: Option<
    &'a FilterRule,
>)
    ensures
        (exists|i: int| 0 <= i < rules@.len() && #[trigger] rules@[i].pattern@ == event_code@)
            ==> (r matches Some(rule) && exists|i: int|
            0 <= i < rules@.len() && #[trigger] rules@[i].pattern@ == event_code@ && rule
                == &rules@[i] && forall|j: int| 0 <= j < i ==> #[trigger] rules@[j].pattern@
                != event_code@),
        !(exists|i: int| 0 <= i < rules@.len() && #[trigger] rules@[i].pattern@ == event_code@)
            ==> r is None,
{
    let n = rules.len();
    let mut i: usize = 0;
    while i < n
        invariant
            n == rules@.len(),
            i <= n,
            forall|j: int| 0 <= j < i ==> #[trigger] rules@[j].pattern@ != event_code@,
        decreases n - i,
    {
        if str_eq(rules[i].pattern.as_str(), event_code) {
            return Some(&rules[i]);
        }
        i = i + 1;
    }
    None
}

/// The action selected for an event code: the first matching rule's
/// action, or relay when no rule matches.
pub open spec fn spec_relay_action(rules: Seq<FilterRule>, code: Seq<char>) -> FilterAction {
    match spec_match_filter(rules, code) {
        Some(i) => rules[i].action,
        None => FilterAction::Relay,
    }
}

/// Consults the filter rules; a non-matching code falls through to the
/// relay default.
pub fn relay_action(rules: &Vec<FilterRule>, event_code: &str) -> (action: FilterAction)
    ensures
        action == spec_relay_action(rules@, event_code@),
{
    match match_filter(rules, event_code) {
        Some(rule) => rule.action,
        None => FilterAction::Relay,
    }
}

/// Why a relay attempt could not start.
#[derive(Clone, Copy, Debug, PartialEq, Eq, Structural)]
pub enum RelayError {
    /// Relaying is enabled but no relay destination is configured.
    RelayUrlMissing,
    /// The recording path handed in is empty.
    EmptyRecordingPath,
}

/// The configuration fields the relay logic reads.
#[derive(Clone, Debug)]
pub struct RelayConfig {
    pub should_relay: bool,
    pub icecast_relay: String,
    pub icecast_intro: String,
    pub icecast_outro: String,
}

/// Holds the validated relay configuration.
#[derive(Debug)]
pub struct RelayState {
    pub config: RelayConfig,
}

impl RelayState {
    /// Accepts a configuration unless relaying is requested without a
    /// destination.
    pub fn new(config: RelayConfig) -> (r: Result<RelayState, RelayError>)
        ensures
            (config.should_relay && config.icecast_relay@.len() == 0) ==> r == Err::<
                RelayState,
                RelayError,
            >(RelayError::RelayUrlMissing),
            !(config.should_relay && config.icecast_relay@.len() == 0) ==> (r matches Ok(state)
                && state.config == config),
    {
        if config.should_relay && config.icecast_relay.as_str().unicode_len() == 0 {
            return Err(RelayError::RelayUrlMissing);
        }
        Ok(RelayState { config })
    }
}

/// One piece of the audio bundle handed to the muxer.
#[derive(Clone, Debug)]
pub enum Segment {
    /// An audio file to include, named by its path.
    File(String),
    /// One second of silence between files.
    Silence,
}

/// The segment names the file at `path`.
pub open spec fn segment_is_file(s: Segment, path: Seq<char>) -> bool {
    s matches Segment::File(p) && p@ == path
}

/// The bundle for a recording: the intro if configured, the recording,
/// the outro if configured, with one second of silence between
/// consecutive files.
pub open spec fn is_relay_plan(
    plan: Seq<Segment>,
    intro: Seq<char>,
    recording: Seq<char>,
    outro: Seq<char>,
) -> bool {
    if intro.len() > 0 && outro.len() > 0 {
        plan.len() == 5 && segment_is_file(plan[0], intro) && plan[1] is Silence
            && segment_is_file(plan[2], recording) && plan[3] is Silence && segment_is_file(
            plan[4],
            outro,
        )
    } else if intro.len() > 0 {
        plan.len() == 3 && segment_is_file(plan[0], intro) && plan[1] is Silence
            && segment_is_file(plan[2], recording)
    } else if outro.len() > 0 {
        plan.len() == 3 && segment_is_file(plan[0], recording) && plan[1] is Silence
            && segment_is_file(plan[2], outro)
    } else {
        plan.len() == 1 && segment_is_file(plan[0], recording)
    }
}

/// The outcome of consulting the rules for a completed recording.
#[derive(Debug)]
pub enum RelayOutcome {
    /// The rules selected `log` or `ignore`: nothing is relayed.
    Skipped(FilterAction),
    /// The segments to mux and stream to the relay sink, in order.
    Bundle(Vec<Segment>),
}

impl RelayState {
    /// Decides what the relay step does for a completed recording:
    /// consults the filter rules and, when the action is relay, builds
    /// the bundle of audio segments for the muxer.
    pub fn plan_relay(&self, event_code: &str, filters: &Vec<FilterRule>, recorded_segment: &str)
        -> (r: Result<RelayOutcome, RelayError>)
        ensures
            ({
                let action = spec_relay_action(filters@, event_code@);
                match action {
                    FilterAction::Ignore => r matches Ok(o) && o matches RelayOutcome::Skipped(a)
                        && a == FilterAction::Ignore,
                    FilterAction::Log => r matches Ok(o) && o matches RelayOutcome::Skipped(a) && a
                        == FilterAction::Log,
                    FilterAction::Relay => {
                        if recorded_segment@.len() == 0 {
                            r == Err::<RelayOutcome, RelayError>(RelayError::EmptyRecordingPath)
                        } else if self.config.icecast_relay@.len() == 0 {
                            r == Err::<RelayOutcome, RelayError>(RelayError::RelayUrlMissing)
                        } else {
                            r matches Ok(o) && o matches RelayOutcome::Bundle(plan)
                                && is_relay_plan(plan@, self.config.icecast_intro@,
                                recorded_segment@, self.config.icecast_outro@)
                        }
                    },
                }
            }),
    {
        let action = relay_action(filters, event_code);
        match action {
            FilterAction::Ignore => Ok(RelayOutcome::Skipped(FilterAction::Ignore)),
            FilterAction::Log => Ok(RelayOutcome::Skipped(FilterAction::Log)),
            FilterAction::Relay => {
                if recorded_segment.unicode_len() == 0 {
                    return Err(RelayError::EmptyRecordingPath);
                }
                if self.config.icecast_relay.as_str().unicode_len() == 0 {
                    return Err(RelayError::RelayUrlMissing);
                }
                let mut plan: Vec<Segment> = Vec::new();
                let has_intro = self.config.icecast_intro.as_str().unicode_len() > 0;
                let has_outro = self.config.icecast_outro.as_str().unicode_len() > 0;
                if has_intro {
                    plan.push(Segment::File(self.config.icecast_intro.clone()));
                    plan.push(Segment::Silence);
                }
                plan.push(Segment::File(recorded_segment.to_owned()));
                if has_outro {
                    plan.push(Segment::Silence);
                    plan.push(Segment::File(self.config.icecast_outro.clone()));
                }
                Ok(RelayOutcome::Bundle(plan))
            },
        }
    }
}

} // verus!
