use zeroclaw::onboarding::{
    is_wizard_section, wizard_index, wizard_index_for_key, Section, SectionShape,
    ONBOARDING_WIZARD,
};

#[test]
fn wizard_round_trips() {
    for s in ONBOARDING_WIZARD.iter() {
        assert_eq!(Section::from_key(s.as_str()), Some(*s), "{} round-trip", s.as_str());
        assert_eq!(wizard_index(*s), {
            ONBOARDING_WIZARD.iter().position(|x| x == s).unwrap()
        });
    }
    assert_eq!(Section::from_key("gateway"), None);
    assert_eq!(Section::from_key("not_a_section"), None);
}

#[test]
fn wizard_begins_with_workspace_and_ends_with_agents() {
    assert_eq!(ONBOARDING_WIZARD.len(), 9);
    assert_eq!(ONBOARDING_WIZARD[0], Section::Workspace);
    assert_eq!(wizard_index(Section::Workspace), 0);
    assert_eq!(wizard_index(Section::Agents), 8);
}

#[test]
fn keys_lead_to_positions() {
    assert_eq!(wizard_index_for_key("workspace"), Some(0));
    assert_eq!(wizard_index_for_key("model_providers"), Some(1));
    assert_eq!(wizard_index_for_key("tts_providers"), Some(2));
    assert_eq!(wizard_index_for_key("transcription_providers"), Some(3));
    assert_eq!(wizard_index_for_key("channels"), Some(4));
    assert_eq!(wizard_index_for_key("memory"), Some(5));
    assert_eq!(wizard_index_for_key("hardware"), Some(6));
    assert_eq!(wizard_index_for_key("tunnel"), Some(7));
    assert_eq!(wizard_index_for_key("agents"), Some(8));
    assert_eq!(wizard_index_for_key("Agents"), None);
    assert_eq!(wizard_index_for_key(""), None);
}

#[test]
fn only_keys_of_sections_are_sections() {
    assert!(is_wizard_section("tunnel"));
    assert!(!is_wizard_section("gateway"));
    assert!(!is_wizard_section(" tunnel"));
}

#[test]
fn sections_have_shapes_and_help() {
    assert_eq!(Section::Workspace.shape(), SectionShape::DirectForm);
    assert_eq!(Section::Channels.shape(), SectionShape::TypedFamilyMap);
    assert_eq!(Section::Memory.shape(), SectionShape::BackendPicker);
    assert_eq!(Section::Agents.shape(), SectionShape::OneTierAliasMap);
    assert_eq!(
        Section::Hardware.help(),
        "Optional: hardware peripherals (Arduino, STM32, GPIO, etc.). Skip if you don't need them."
    );
    for s in ONBOARDING_WIZARD.iter() {
        assert!(!s.help().is_empty());
    }
}
