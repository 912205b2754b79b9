//! The part of an install's configuration that is worked on here.

use vstd::prelude::*;

use crate::alias::{AliasMap, NameSet};
use crate::text::copy_strings;
#[allow(unused_imports)]
use crate::text::texts;

verus! {

/// Where an agent keeps what it remembers.
#[derive(Debug)]
pub enum MemoryBackendKind {
    Sqlite,
    /// Another backend, by its name.
    Named(String),
}

/// A memory backend, with its name as a sequence.
pub enum MemoryBackendKindView {
    Sqlite,
    Named(Seq<char>),
}

impl View for MemoryBackendKind {
    type V = MemoryBackendKindView;

    open spec fn view(&self) -> MemoryBackendKindView {
        match *self {
            MemoryBackendKind::Sqlite => MemoryBackendKindView::Sqlite,
            MemoryBackendKind::Named(name) => MemoryBackendKindView::Named(name@),
        }
    }
}

impl MemoryBackendKind {
    /// The same backend.
    pub fn copy(&self) -> (out: Self)
        ensures
            out@ == self@,
    {
        match self {
            MemoryBackendKind::Sqlite => MemoryBackendKind::Sqlite,
            MemoryBackendKind::Named(name) => MemoryBackendKind::Named(name.clone()),
        }
    }
}

/// An agent's block of the configuration.
#[derive(Debug)]
pub struct AliasedAgentConfig {
    pub risk_profile: String,
    pub model_provider: String,
    pub memory_backend: MemoryBackendKind,
    pub channels: Vec<String>,
}

/// An agent's block, with its texts as sequences.
pub struct AliasedAgentConfigView {
    pub risk_profile: Seq<char>,
    pub model_provider: Seq<char>,
    pub memory_backend: MemoryBackendKindView,
    pub channels: Seq<Seq<char>>,
}

impl View for AliasedAgentConfig {
    type V = AliasedAgentConfigView;

    open spec fn view(&self) -> AliasedAgentConfigView {
        AliasedAgentConfigView {
            risk_profile: self.risk_profile@,
            model_provider: self.model_provider@,
            memory_backend: self.memory_backend@,
            channels: texts(self.channels@),
        }
    }
}

/// A group of agents that talk to each other over a channel.
#[derive(Debug)]
pub struct PeerGroupConfig {
    pub channel: String,
    pub agents: Vec<String>,
    pub external_peers: Vec<String>,
    pub ignore: Vec<String>,
}

/// A peer group, with its texts as sequences.
pub struct PeerGroupConfigView {
    pub channel: Seq<char>,
    pub agents: Seq<Seq<char>>,
    pub external_peers: Seq<Seq<char>>,
    pub ignore: Seq<Seq<char>>,
}

impl View for PeerGroupConfig {
    type V = PeerGroupConfigView;

    open spec fn view(&self) -> PeerGroupConfigView {
        PeerGroupConfigView {
            channel: self.channel@,
            agents: texts(self.agents@),
            external_peers: texts(self.external_peers@),
            ignore: texts(self.ignore@),
        }
    }
}

impl PeerGroupConfig {
    /// The same group with other agents in it.
    pub fn with_agents(&self, agents: Vec<String>) -> (out: Self)
        ensures
            out@ == (PeerGroupConfigView { agents: texts(agents@), ..self@ }),
    {
        PeerGroupConfig {
            channel: self.channel.clone(),
            agents,
            external_peers: copy_strings(&self.external_peers),
            ignore: copy_strings(&self.ignore),
        }
    }
}

/// A bundle of skills.
#[derive(Debug)]
pub struct SkillBundleConfig {
    /// Where its skills are; the default place where it is not set.
    pub directory: Option<String>,
}

/// The configuration.
#[derive(Debug)]
pub struct Config {
    pub agents: AliasMap<AliasedAgentConfig>,
    pub peer_groups: AliasMap<PeerGroupConfig>,
    pub skill_bundles: AliasMap<SkillBundleConfig>,
    pub risk_profiles: NameSet,
}

impl Config {
    /// Each alias and each name stands once.
    pub open spec fn wf(&self) -> bool {
        &&& self.agents.wf()
        &&& self.peer_groups.wf()
        &&& self.skill_bundles.wf()
        &&& self.risk_profiles.wf()
    }

    /// A configuration with nothing in it.
    pub fn new() -> (out: Self)
        ensures
            out.wf(),
            out.agents@ == Map::<Seq<char>, AliasedAgentConfig>::empty(),
            out.agents.entries().len() == 0,
            out.peer_groups@ == Map::<Seq<char>, PeerGroupConfig>::empty(),
            out.peer_groups.entries().len() == 0,
            out.skill_bundles@ == Map::<Seq<char>, SkillBundleConfig>::empty(),
            out.skill_bundles.entries().len() == 0,
            out.risk_profiles@ == Set::<Seq<char>>::empty(),
    {
        Config {
            agents: AliasMap::new(),
            peer_groups: AliasMap::new(),
            skill_bundles: AliasMap::new(),
            risk_profiles: NameSet::new(),
        }
    }
}

} // verus!
