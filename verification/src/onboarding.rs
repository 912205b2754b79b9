//! The onboarding wizard: the sections that an operator walks through, in
//! order, to reach a working install.

use vstd::prelude::*;

use crate::text::same_text;

verus! {

/// How a section of the wizard is edited.
#[derive(Clone, Copy, PartialEq, Eq, Structural, Hash, Debug)]
pub enum SectionShape {
    /// A form, without a step before it.
    DirectForm,
    /// A list of aliases, each with a form.
    OneTierAliasMap,
    /// A choice of type, then a list of aliases of that type, each with a form.
    TypedFamilyMap,
    /// A choice of one backend, then its form.
    BackendPicker,
}

/// A section of the wizard. Structural sections come first, agents last.
#[derive(Clone, Copy, PartialEq, Eq, Structural, Hash, Debug)]
pub enum Section {
    Workspace,
    ModelProviders,
    TtsProviders,
    TranscriptionProviders,
    Channels,
    Memory,
    Hardware,
    Tunnel,
    Agents,
}

/// The wizard: its sections in order.
pub const ONBOARDING_WIZARD: [Section; 9] = [
    Section::Workspace,
    Section::ModelProviders,
    Section::TtsProviders,
    Section::TranscriptionProviders,
    Section::Channels,
    Section::Memory,
    Section::Hardware,
    Section::Tunnel,
    Section::Agents,
];

impl Section {
    /// The key that the section goes by outside.
    pub open spec fn key(self) -> Seq<char> {
        match self {
            Section::Workspace => "workspace"@,
            Section::ModelProviders => "model_providers"@,
            Section::TtsProviders => "tts_providers"@,
            Section::TranscriptionProviders => "transcription_providers"@,
            Section::Channels => "channels"@,
            Section::Memory => "memory"@,
            Section::Hardware => "hardware"@,
            Section::Tunnel => "tunnel"@,
            Section::Agents => "agents"@,
        }
    }

    /// The key that the section goes by outside.
    pub fn as_str(self) -> (out: &'static str)
        ensures
            out@ == self.key(),
    {
        match self {
            Section::Workspace => "workspace",
            Section::ModelProviders => "model_providers",
            Section::TtsProviders => "tts_providers",
            Section::TranscriptionProviders => "transcription_providers",
            Section::Channels => "channels",
            Section::Memory => "memory",
            Section::Hardware => "hardware",
            Section::Tunnel => "tunnel",
            Section::Agents => "agents",
        }
    }

    /// How the section is edited.
    pub open spec fn edited_as(self) -> SectionShape {
        match self {
            Section::Workspace => SectionShape::DirectForm,
            Section::ModelProviders => SectionShape::TypedFamilyMap,
            Section::TtsProviders => SectionShape::TypedFamilyMap,
            Section::TranscriptionProviders => SectionShape::TypedFamilyMap,
            Section::Channels => SectionShape::TypedFamilyMap,
            Section::Memory => SectionShape::BackendPicker,
            Section::Hardware => SectionShape::DirectForm,
            Section::Tunnel => SectionShape::BackendPicker,
            Section::Agents => SectionShape::OneTierAliasMap,
        }
    }

    /// How the section is edited.
    pub fn shape(self) -> (out: SectionShape)
        ensures
            out == self.edited_as(),
    {
        match self {
            Section::Workspace => SectionShape::DirectForm,
            Section::ModelProviders => SectionShape::TypedFamilyMap,
            Section::TtsProviders => SectionShape::TypedFamilyMap,
            Section::TranscriptionProviders => SectionShape::TypedFamilyMap,
            Section::Channels => SectionShape::TypedFamilyMap,
            Section::Memory => SectionShape::BackendPicker,
            Section::Hardware => SectionShape::DirectForm,
            Section::Tunnel => SectionShape::BackendPicker,
            Section::Agents => SectionShape::OneTierAliasMap,
        }
    }

    /// What the operator is told about the section.
    pub open spec fn told(self) -> Seq<char> {
        match self {
            Section::Workspace =>
            "Where ZeroClaw stores config, memory, and per-agent state. The default install dir is fine for most setups."@,
            Section::ModelProviders =>
            "Paste an API key (e.g. `sk-ant-...` for Anthropic, `sk-...` for OpenAI) when prompted. For OAuth-based providers run: `zeroclaw auth login --model-provider <name>`."@,
            Section::TtsProviders =>
            "Text-to-speech providers (OpenAI, ElevenLabs, Google, Edge, Piper). Configure one per voice / language; agents reference them by alias."@,
            Section::TranscriptionProviders =>
            "Speech-to-text providers (OpenAI Whisper, Groq, Deepgram, AssemblyAI, Google, local Whisper). Configure one per pipeline; agents reference them by alias."@,
            Section::Channels =>
            "Pick which chat platforms ZeroClaw should listen on. You can configure multiple — each channel gets its own alias."@,
            Section::Memory =>
            "Persistent memory backend. SQLite is the default; pick `none` to disable long-term recall entirely."@,
            Section::Hardware =>
            "Optional: hardware peripherals (Arduino, STM32, GPIO, etc.). Skip if you don't need them."@,
            Section::Tunnel =>
            "Optional: expose your gateway over the public internet via Cloudflare or ngrok. Pick `none` to keep it localhost-only."@,
            Section::Agents =>
            "An agent binds a model provider, profiles, bundles, and channels into one dispatchable unit. Add one per persona; reuse the same alias across channels to share state."@,
        }
    }

    /// What the operator is told about the section.
    pub fn help(self) -> (out: &'static str)
        ensures
            out@ == self.told(),
    {
        match self {
            Section::Workspace =>
            "Where ZeroClaw stores config, memory, and per-agent state. The default install dir is fine for most setups.",
            Section::ModelProviders =>
            "Paste an API key (e.g. `sk-ant-...` for Anthropic, `sk-...` for OpenAI) when prompted. For OAuth-based providers run: `zeroclaw auth login --model-provider <name>`.",
            Section::TtsProviders =>
            "Text-to-speech providers (OpenAI, ElevenLabs, Google, Edge, Piper). Configure one per voice / language; agents reference them by alias.",
            Section::TranscriptionProviders =>
            "Speech-to-text providers (OpenAI Whisper, Groq, Deepgram, AssemblyAI, Google, local Whisper). Configure one per pipeline; agents reference them by alias.",
            Section::Channels =>
            "Pick which chat platforms ZeroClaw should listen on. You can configure multiple — each channel gets its own alias.",
            Section::Memory =>
            "Persistent memory backend. SQLite is the default; pick `none` to disable long-term recall entirely.",
            Section::Hardware =>
            "Optional: hardware peripherals (Arduino, STM32, GPIO, etc.). Skip if you don't need them.",
            Section::Tunnel =>
            "Optional: expose your gateway over the public internet via Cloudflare or ngrok. Pick `none` to keep it localhost-only.",
            Section::Agents =>
            "An agent binds a model provider, profiles, bundles, and channels into one dispatchable unit. Add one per persona; reuse the same alias across channels to share state.",
        }
    }

    /// The section that `s` is the key of, if any.
    pub fn from_key(s: &str) -> (out: Option<Section>)
        ensures
            match out {
                Some(section) => section.key() == s@,
                None => forall|section: Section| #[trigger] section.key() != s@,
            },
    {
        let mut i: usize = 0;
        while i < ONBOARDING_WIZARD.len()
            invariant
                i <= ONBOARDING_WIZARD@.len(),
                forall|j: int| 0 <= j < i ==> #[trigger] ONBOARDING_WIZARD@[j].key() != s@,
            decreases ONBOARDING_WIZARD@.len() - i,
        {
            let section: Section = ONBOARDING_WIZARD[i];
            if same_text(section.as_str(), s) {
                return Some(section);
            }
            i = i + 1;
        }
        proof {
            assert forall|section: Section| #[trigger] section.key() != s@ by {
                lemma_in_wizard(section);
                assert(ONBOARDING_WIZARD@[rank(section)].key() == section.key());
            }
        }
        None
    }
}

/// The position of a section in the wizard.
pub open spec fn rank(section: Section) -> int {
    match section {
        Section::Workspace => 0,
        Section::ModelProviders => 1,
        Section::TtsProviders => 2,
        Section::TranscriptionProviders => 3,
        Section::Channels => 4,
        Section::Memory => 5,
        Section::Hardware => 6,
        Section::Tunnel => 7,
        Section::Agents => 8,
    }
}

/// Each section stands in the wizard at its own position.
proof fn lemma_in_wizard(section: Section)
    ensures
        0 <= rank(section) < ONBOARDING_WIZARD@.len(),
        ONBOARDING_WIZARD@[rank(section)] == section,
{
}

/// The position of a section in the wizard.
#[must_use]
pub fn wizard_index(section: Section) -> (out: usize)
    ensures
        out == rank(section),
        ONBOARDING_WIZARD@[out as int] == section,
{
    let mut i: usize = 0;
    while i < ONBOARDING_WIZARD.len()
        invariant_except_break
            i <= rank(section),
        invariant
            i <= ONBOARDING_WIZARD@.len(),
        ensures
            i == rank(section),
        decreases ONBOARDING_WIZARD@.len() - i,
    {
        proof {
            law_wizard_order(i as int);
            lemma_in_wizard(section);
        }
        if ONBOARDING_WIZARD[i] == section {
            break;
        }
        i = i + 1;
    }
    proof {
        lemma_in_wizard(section);
    }
    i
}

/// The position of the section with the key `key`, if there is one.
#[must_use]
pub fn wizard_index_for_key(key: &str) -> (out: Option<usize>)
    ensures
        match out {
            Some(i) => i < ONBOARDING_WIZARD@.len() && ONBOARDING_WIZARD@[i as int].key() == key@,
            None => forall|section: Section| #[trigger] section.key() != key@,
        },
{
    match Section::from_key(key) {
        Some(section) => {
            proof {
                lemma_in_wizard(section);
            }
            Some(wizard_index(section))
        },
        None => None,
    }
}

/// Whether `key` is the key of a section.
#[must_use]
pub fn is_wizard_section(key: &str) -> (yes: bool)
    ensures
        yes <==> exists|section: Section| #[trigger] section.key() == key@,
{
    match Section::from_key(key) {
        Some(section) => {
            proof {
                assert(section.key() == key@);
            }
            true
        },
        None => false,
    }
}

// ---------------------------------------------------------------------------
// Laws
// ---------------------------------------------------------------------------

/// The section at a position of the wizard has that position: no section
/// stands twice.
pub proof fn law_wizard_order(i: int)
    requires
        0 <= i < ONBOARDING_WIZARD@.len(),
    ensures
        rank(ONBOARDING_WIZARD@[i]) == i,
{
}

/// Agents come last.
pub proof fn law_agents_come_last(section: Section)
    ensures
        rank(section) <= rank(Section::Agents),
        rank(Section::Agents) == ONBOARDING_WIZARD@.len() - 1,
{
}

/// No two sections have the same key, so that a key leads back to its
/// section.
pub proof fn law_keys_are_distinct(a: Section, b: Section)
    requires
        a.key() == b.key(),
    ensures
        a == b,
{
    lemma_key_shape(a);
    lemma_key_shape(b);
}

/// The key has this length and this first letter.
spec fn told_by(key: Seq<char>, length: nat, first: char) -> bool {
    key.len() == length && key[0] == first
}

/// Keys are told apart by their length and their first letter.
proof fn lemma_key_shape(section: Section)
    ensures
        match section {
            Section::Workspace => told_by(section.key(), 9, 'w'),
            Section::ModelProviders => told_by(section.key(), 15, 'm'),
            Section::TtsProviders => told_by(section.key(), 13, 't'),
            Section::TranscriptionProviders => told_by(section.key(), 23, 't'),
            Section::Channels => told_by(section.key(), 8, 'c'),
            Section::Memory => told_by(section.key(), 6, 'm'),
            Section::Hardware => told_by(section.key(), 8, 'h'),
            Section::Tunnel => told_by(section.key(), 6, 't'),
            Section::Agents => told_by(section.key(), 6, 'a'),
        },
{
    reveal_strlit("workspace");
    reveal_strlit("model_providers");
    reveal_strlit("tts_providers");
    reveal_strlit("transcription_providers");
    reveal_strlit("channels");
    reveal_strlit("memory");
    reveal_strlit("hardware");
    reveal_strlit("tunnel");
    reveal_strlit("agents");
}

/// What each section is: its key, its place in the wizard, how it is edited and
/// what is told of it.
pub proof fn law_sections_are(section: Section)
    ensures
        match section {
            Section::Workspace => {
                &&& section.key() == "workspace"@
                &&& rank(section) == 0
                &&& ONBOARDING_WIZARD@[0] is Workspace
                &&& section.edited_as() is DirectForm
                &&& section.told()
                    == "Where ZeroClaw stores config, memory, and per-agent state. The default install dir is fine for most setups."@
            },
            Section::ModelProviders => {
                &&& section.key() == "model_providers"@
                &&& rank(section) == 1
                &&& ONBOARDING_WIZARD@[1] is ModelProviders
                &&& section.edited_as() is TypedFamilyMap
                &&& section.told()
                    == "Paste an API key (e.g. `sk-ant-...` for Anthropic, `sk-...` for OpenAI) when prompted. For OAuth-based providers run: `zeroclaw auth login --model-provider <name>`."@
            },
            Section::TtsProviders => {
                &&& section.key() == "tts_providers"@
                &&& rank(section) == 2
                &&& ONBOARDING_WIZARD@[2] is TtsProviders
                &&& section.edited_as() is TypedFamilyMap
                &&& section.told()
                    == "Text-to-speech providers (OpenAI, ElevenLabs, Google, Edge, Piper). Configure one per voice / language; agents reference them by alias."@
            },
            Section::TranscriptionProviders => {
                &&& section.key() == "transcription_providers"@
                &&& rank(section) == 3
                &&& ONBOARDING_WIZARD@[3] is TranscriptionProviders
                &&& section.edited_as() is TypedFamilyMap
                &&& section.told()
                    == "Speech-to-text providers (OpenAI Whisper, Groq, Deepgram, AssemblyAI, Google, local Whisper). Configure one per pipeline; agents reference them by alias."@
            },
            Section::Channels => {
                &&& section.key() == "channels"@
                &&& rank(section) == 4
                &&& ONBOARDING_WIZARD@[4] is Channels
                &&& section.edited_as() is TypedFamilyMap
                &&& section.told()
                    == "Pick which chat platforms ZeroClaw should listen on. You can configure multiple — each channel gets its own alias."@
            },
            Section::Memory => {
                &&& section.key() == "memory"@
                &&& rank(section) == 5
                &&& ONBOARDING_WIZARD@[5] is Memory
                &&& section.edited_as() is BackendPicker
                &&& section.told()
                    == "Persistent memory backend. SQLite is the default; pick `none` to disable long-term recall entirely."@
            },
            Section::Hardware => {
                &&& section.key() == "hardware"@
                &&& rank(section) == 6
                &&& ONBOARDING_WIZARD@[6] is Hardware
                &&& section.edited_as() is DirectForm
                &&& section.told()
                    == "Optional: hardware peripherals (Arduino, STM32, GPIO, etc.). Skip if you don't need them."@
            },
            Section::Tunnel => {
                &&& section.key() == "tunnel"@
                &&& rank(section) == 7
                &&& ONBOARDING_WIZARD@[7] is Tunnel
                &&& section.edited_as() is BackendPicker
                &&& section.told()
                    == "Optional: expose your gateway over the public internet via Cloudflare or ngrok. Pick `none` to keep it localhost-only."@
            },
            Section::Agents => {
                &&& section.key() == "agents"@
                &&& rank(section) == 8
                &&& ONBOARDING_WIZARD@[8] is Agents
                &&& section.edited_as() is OneTierAliasMap
                &&& section.told()
                    == "An agent binds a model provider, profiles, bundles, and channels into one dispatchable unit. Add one per persona; reuse the same alias across channels to share state."@
            },
        },
        ONBOARDING_WIZARD@.len() == 9,
{
}

} // verus!
