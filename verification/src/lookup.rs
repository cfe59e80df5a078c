//! The mailbox lookup policy: which probes of the key-value store are made for
//! a recipient, in which order, and what their answers decide.
//!
//! The store itself is reached by whoever owns its connection. A probe that
//! fails is reported as `None`, and counts as "not there".

use vstd::prelude::*;
use vstd::string::*;
use crate::config::{key_text, CheckMode, Config};
use crate::text::{lowercase, substitute, to_lowercase};

verus! {

/// What is asked next, or what was decided.
#[derive(Clone, Copy, Debug, PartialEq, Eq, Structural)]
pub enum Plan {
    /// Probe the key of the address.
    AskKey,
    /// Probe the set of known addresses.
    AskSet,
    /// The decision.
    Decide(bool),
}

/// The set probe, or a refusal when no set is configured.
pub open spec fn set_plan(set_empty: bool) -> Plan {
    if set_empty {
        Plan::Decide(false)
    } else {
        Plan::AskSet
    }
}

/// The first step of a lookup.
pub open spec fn plan_start(mode: CheckMode, set_empty: bool) -> Plan {
    match mode {
        CheckMode::KeyOnly => Plan::AskKey,
        CheckMode::Both => Plan::AskKey,
        CheckMode::SetOnly => set_plan(set_empty),
    }
}

/// The step after the key probe answered.
pub open spec fn plan_after_key(mode: CheckMode, set_empty: bool, answer: Option<bool>) -> Plan {
    match mode {
        CheckMode::KeyOnly => Plan::Decide(answer == Some(true)),
        CheckMode::Both => if answer == Some(true) {
            Plan::Decide(true)
        } else {
            set_plan(set_empty)
        },
        CheckMode::SetOnly => set_plan(set_empty),
    }
}

/// The step after the set probe answered.
pub open spec fn plan_after_set(answer: Option<bool>) -> Plan {
    Plan::Decide(answer == Some(true))
}

/// Whether a recipient is accepted, given what the probes answer.
///
/// With the key only, the key decides. With the set only, the set decides,
/// and no set means no. With both, the key is enough, and the set is the
/// fallback.
pub open spec fn accepts(
    mode: CheckMode,
    set_empty: bool,
    key: Option<bool>,
    member: Option<bool>,
) -> bool {
    match mode {
        CheckMode::KeyOnly => key == Some(true),
        CheckMode::SetOnly => !set_empty && member == Some(true),
        CheckMode::Both => key == Some(true) || (!set_empty && member == Some(true)),
    }
}

/// The decision that a lookup comes to when its plan is followed.
pub open spec fn plan_outcome(
    mode: CheckMode,
    set_empty: bool,
    key: Option<bool>,
    member: Option<bool>,
) -> bool {
    let next = match plan_start(mode, set_empty) {
        Plan::AskKey => plan_after_key(mode, set_empty, key),
        other => other,
    };
    match next {
        Plan::Decide(d) => d,
        _ => plan_after_set(member) == Plan::Decide(true),
    }
}

/// Following the plan step by step decides what `accepts` says.
pub proof fn lemma_plan_decides(
    mode: CheckMode,
    set_empty: bool,
    key: Option<bool>,
    member: Option<bool>,
)
    ensures
        plan_outcome(mode, set_empty, key, member) == accepts(mode, set_empty, key, member),
{
}

/// A probe of the store.
#[derive(Debug, PartialEq, Eq)]
pub enum Probe {
    /// Does this key exist?
    Key(String),
    /// Is this element a member of this set?
    Member { set: String, element: String },
}

/// What a lookup does next.
#[derive(Debug, PartialEq, Eq)]
pub enum LookupStep {
    /// Make this probe and report its answer.
    Ask(Probe),
    /// The recipient is accepted, or it is not.
    Decided(bool),
}

/// The mailbox lookup: the key pattern, the name of the set, and the mode.
pub struct MailboxLookup {
    key_pattern: String,
    set_name: String,
    check_mode: CheckMode,
}

impl MailboxLookup {
    /// The key pattern.
    pub closed spec fn pattern(&self) -> Seq<char> {
        self.key_pattern@
    }

    /// The name of the set of known addresses.
    pub closed spec fn set(&self) -> Seq<char> {
        self.set_name@
    }

    /// The mode.
    pub closed spec fn mode(&self) -> CheckMode {
        self.check_mode
    }

    /// Whether a step is the one that `plan` describes for `address`.
    pub open spec fn step_matches(&self, step: LookupStep, plan: Plan, address: Seq<char>) -> bool {
        match plan {
            Plan::AskKey => step matches LookupStep::Ask(Probe::Key(k)) && k@ == key_text(
                self.pattern(),
                address,
            ),
            Plan::AskSet => step matches LookupStep::Ask(Probe::Member { set, element })
                && set@ == self.set() && element@ == lowercase(address),
            Plan::Decide(d) => step matches LookupStep::Decided(b) && b == d,
        }
    }

    /// The lookup that a configuration asks for.
    pub fn new(config: &Config) -> (r: Self)
        ensures
            r.pattern() == config.redis_key_pattern@,
            r.set() == config.redis_set_name@,
            r.mode() == config.redis_check_mode,
    {
        MailboxLookup {
            key_pattern: config.redis_key_pattern.clone(),
            set_name: config.redis_set_name.clone(),
            check_mode: config.redis_check_mode,
        }
    }

    /// The store key of an address.
    pub fn key_for(&self, address: &str) -> (r: String)
        ensures
            r@ == key_text(self.pattern(), address@),
    {
        let lower = to_lowercase(address);
        substitute(self.key_pattern.as_str(), "{address}", lower.as_str())
    }

    /// Turns a plan into a step for `address`.
    fn carry_out(&self, plan: Plan, address: &str) -> (r: LookupStep)
        ensures
            self.step_matches(r, plan, address@),
    {
        match plan {
            Plan::AskKey => LookupStep::Ask(Probe::Key(self.key_for(address))),
            Plan::AskSet => LookupStep::Ask(
                Probe::Member { set: self.set_name.clone(), element: to_lowercase(address) },
            ),
            Plan::Decide(d) => LookupStep::Decided(d),
        }
    }

    /// The set probe, or a refusal when no set is configured.
    fn plan_set(&self) -> (r: Plan)
        ensures
            r == set_plan(self.set().len() == 0),
    {
        if self.set_name.as_str().is_empty() {
            Plan::Decide(false)
        } else {
            Plan::AskSet
        }
    }

    /// Starts the lookup of a recipient.
    pub fn start(&self, address: &str) -> (r: LookupStep)
        ensures
            self.step_matches(r, plan_start(self.mode(), self.set().len() == 0), address@),
    {
        let plan = match self.check_mode {
            CheckMode::KeyOnly => Plan::AskKey,
            CheckMode::Both => Plan::AskKey,
            CheckMode::SetOnly => self.plan_set(),
        };
        self.carry_out(plan, address)
    }

    /// Goes on after the key probe answered; `None` stands for a store error.
    pub fn after_key(&self, address: &str, answer: Option<bool>) -> (r: LookupStep)
        ensures
            self.step_matches(
                r,
                plan_after_key(self.mode(), self.set().len() == 0, answer),
                address@,
            ),
    {
        let found = is_yes(answer);
        let plan = match self.check_mode {
            CheckMode::KeyOnly => Plan::Decide(found),
            CheckMode::Both => {
                if found {
                    Plan::Decide(true)
                } else {
                    self.plan_set()
                }
            },
            CheckMode::SetOnly => self.plan_set(),
        };
        self.carry_out(plan, address)
    }

    /// Decides after the set probe answered; `None` stands for a store error.
    pub fn after_set(&self, answer: Option<bool>) -> (r: bool)
        ensures
            plan_after_set(answer) == Plan::Decide(r),
    {
        is_yes(answer)
    }

    /// Whether a recipient is accepted, given what the probes answer.
    pub fn should_accept(&self, key: Option<bool>, member: Option<bool>) -> (r: bool)
        ensures
            r == accepts(self.mode(), self.set().len() == 0, key, member),
    {
        let by_key = is_yes(key);
        let by_set = !self.set_name.as_str().is_empty() && is_yes(member);
        match self.check_mode {
            CheckMode::KeyOnly => by_key,
            CheckMode::SetOnly => by_set,
            CheckMode::Both => by_key || by_set,
        }
    }
}

/// Whether a probe answered yes. An error is no.
pub fn is_yes(answer: Option<bool>) -> (r: bool)
    ensures
        r == (answer == Some(true)),
{
    match answer {
        Some(b) => b,
        None => false,
    }
}

} // verus!
