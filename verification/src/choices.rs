use vstd::prelude::*;

use crate::strutil::str_eq;

verus! {

/// How a service arranges its members.
#[derive(Debug, Clone, Copy, PartialEq, Eq, Hash, Structural)]
pub enum Topology {
    Standalone,
    Leader,
}

/// How a running service takes package updates.
#[derive(Debug, Clone, Copy, PartialEq, Eq, Hash, Structural)]
pub enum UpdateStrategy {
    Disabled,
    AtOnce,
    Rolling,
}

/// Whether unsatisfied optional binds block startup.
#[derive(Debug, Clone, Copy, PartialEq, Eq, Hash, Structural)]
pub enum BindingMode {
    Strict,
    Relaxed,
}

/// The state a service is asked to be in.
#[derive(Debug, Clone, Copy, PartialEq, Eq, Hash, Structural)]
pub enum ProcessState {
    Up,
    Down,
}

pub open spec fn topology_text(t: Topology) -> Seq<char> {
    match t {
        Topology::Standalone => "standalone"@,
        Topology::Leader => "leader"@,
    }
}

pub open spec fn parse_topology(s: Seq<char>) -> Option<Topology> {
    if s == "standalone"@ {
        Some(Topology::Standalone)
    } else if s == "leader"@ {
        Some(Topology::Leader)
    } else {
        None
    }
}

pub open spec fn update_strategy_text(u: UpdateStrategy) -> Seq<char> {
    match u {
        UpdateStrategy::Disabled => "none"@,
        UpdateStrategy::AtOnce => "at-once"@,
        UpdateStrategy::Rolling => "rolling"@,
    }
}

pub open spec fn parse_update_strategy(s: Seq<char>) -> Option<UpdateStrategy> {
    if s == "none"@ {
        Some(UpdateStrategy::Disabled)
    } else if s == "at-once"@ {
        Some(UpdateStrategy::AtOnce)
    } else if s == "rolling"@ {
        Some(UpdateStrategy::Rolling)
    } else {
        None
    }
}

pub open spec fn binding_mode_text(m: BindingMode) -> Seq<char> {
    match m {
        BindingMode::Strict => "strict"@,
        BindingMode::Relaxed => "relaxed"@,
    }
}

pub open spec fn parse_binding_mode(s: Seq<char>) -> Option<BindingMode> {
    if s == "strict"@ {
        Some(BindingMode::Strict)
    } else if s == "relaxed"@ {
        Some(BindingMode::Relaxed)
    } else {
        None
    }
}

pub open spec fn process_state_text(p: ProcessState) -> Seq<char> {
    match p {
        ProcessState::Up => "up"@,
        ProcessState::Down => "down"@,
    }
}

pub open spec fn parse_process_state(s: Seq<char>) -> Option<ProcessState> {
    if s == "up"@ {
        Some(ProcessState::Up)
    } else if s == "down"@ {
        Some(ProcessState::Down)
    } else {
        None
    }
}

/// Each textual form parses back to the value it was rendered from.
pub proof fn lemma_choice_texts_parse_back()
    ensures
        forall|t: Topology| parse_topology(#[trigger] topology_text(t)) == Some(t),
        forall|u: UpdateStrategy| parse_update_strategy(#[trigger] update_strategy_text(u))
            == Some(u),
        forall|m: BindingMode| parse_binding_mode(#[trigger] binding_mode_text(m)) == Some(m),
        forall|p: ProcessState| parse_process_state(#[trigger] process_state_text(p)) == Some(p),
{
    reveal_strlit("standalone");
    reveal_strlit("leader");
    reveal_strlit("none");
    reveal_strlit("at-once");
    reveal_strlit("rolling");
    reveal_strlit("strict");
    reveal_strlit("relaxed");
    reveal_strlit("up");
    reveal_strlit("down");
    assert("standalone"@.len() == 10 && "leader"@.len() == 6);
    assert("none"@.len() == 4 && "at-once"@.len() == 7 && "rolling"@.len() == 7);
    assert("at-once"@[0] == 'a' && "rolling"@[0] == 'r');
    assert("strict"@.len() == 6 && "relaxed"@.len() == 7);
    assert("up"@.len() == 2 && "down"@.len() == 4);
}

impl Topology {
    /// The textual form used in spec documents.
    pub fn to_text(&self) -> (r: String)
        ensures
            r@ == topology_text(*self),
    {
        match self {
            Topology::Standalone => "standalone".to_owned(),
            Topology::Leader => "leader".to_owned(),
        }
    }

    /// Reads the textual form used in spec documents.
    pub fn parse(s: &str) -> (r: Option<Topology>)
        ensures
            r == parse_topology(s@),
    {
        if str_eq(s, "standalone") {
            Some(Topology::Standalone)
        } else if str_eq(s, "leader") {
            Some(Topology::Leader)
        } else {
            None
        }
    }
}

impl UpdateStrategy {
    /// The textual form used in spec documents.
    pub fn to_text(&self) -> (r: String)
        ensures
            r@ == update_strategy_text(*self),
    {
        match self {
            UpdateStrategy::Disabled => "none".to_owned(),
            UpdateStrategy::AtOnce => "at-once".to_owned(),
            UpdateStrategy::Rolling => "rolling".to_owned(),
        }
    }

    /// Reads the textual form used in spec documents.
    pub fn parse(s: &str) -> (r: Option<UpdateStrategy>)
        ensures
            r == parse_update_strategy(s@),
    {
        if str_eq(s, "none") {
            Some(UpdateStrategy::Disabled)
        } else if str_eq(s, "at-once") {
            Some(UpdateStrategy::AtOnce)
        } else if str_eq(s, "rolling") {
            Some(UpdateStrategy::Rolling)
        } else {
            None
        }
    }
}

impl BindingMode {
    /// The textual form used in spec documents.
    pub fn to_text(&self) -> (r: String)
        ensures
            r@ == binding_mode_text(*self),
    {
        match self {
            BindingMode::Strict => "strict".to_owned(),
            BindingMode::Relaxed => "relaxed".to_owned(),
        }
    }

    /// Reads the textual form used in spec documents.
    pub fn parse(s: &str) -> (r: Option<BindingMode>)
        ensures
            r == parse_binding_mode(s@),
    {
        if str_eq(s, "strict") {
            Some(BindingMode::Strict)
        } else if str_eq(s, "relaxed") {
            Some(BindingMode::Relaxed)
        } else {
            None
        }
    }
}

impl ProcessState {
    /// The textual form used in spec documents.
    pub fn to_text(&self) -> (r: String)
        ensures
            r@ == process_state_text(*self),
    {
        match self {
            ProcessState::Up => "up".to_owned(),
            ProcessState::Down => "down".to_owned(),
        }
    }

    /// Reads the textual form used in spec documents.
    pub fn parse(s: &str) -> (r: Option<ProcessState>)
        ensures
            r == parse_process_state(s@),
    {
        if str_eq(s, "up") {
            Some(ProcessState::Up)
        } else if str_eq(s, "down") {
            Some(ProcessState::Down)
        } else {
            None
        }
    }
}

} // verus!
