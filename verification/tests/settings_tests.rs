use con_panes::settings::{ai_purpose_options, effective_terminal_blur, protocol_switch_hint, protocol_switch_label};
use con_panes::endpoints::{
    endpoint_label_for_base_url, endpoint_options, endpoint_preset_for_label, mapped_protocol_base_url,
    provider_endpoint_presets, seed_protocol_variant_config, source_endpoint_is_named_preset, ProviderConfig,
};
use con_panes::keybindings::{
    keybinding_conflict_message, keybinding_default, keybinding_field, keybinding_field_index, keystroke_to_binding,
    set_keybinding_field, sync_keybinding_conflict_error, KeybindingConfig, Keystroke, SettingsSaveErrorKind,
};
use con_panes::settings::{
    ai_purpose_from_label, ai_purpose_label, cursor_style_from_label, cursor_style_label, display_theme_name,
    human_join, protocol_pair, protocol_toggled_provider, provider_connection_status, provider_for_transport,
    provider_has_oauth, provider_label, provider_oauth_button_label, sidebar_provider_kind, sidebar_selection_target,
    uses_anthropic_protocol, AgentPurpose, ProviderKind, ProviderOAuthState, ProviderTransport, SettingsSection,
};
use con_panes::settings_panel::{SaveOutcome, SettingsDraft, SettingsEffect, SettingsPanel};

#[test]
fn oauth_providers_are_ready_with_key_override() {
    for provider in [ProviderKind::ChatGPT, ProviderKind::GitHubCopilot] {
        let status = provider_connection_status(provider_has_oauth(&provider), false, None, false, true);
        assert_eq!(status, (true, "Ready"), "provider: {provider:?}");
    }
}

#[test]
fn oauth_labels_take_precedence_over_key_override() {
    let signing_in = ProviderOAuthState { in_progress: true, ..Default::default() };
    assert_eq!(provider_connection_status(true, true, Some(&signing_in), false, true), (true, "Signing In"));

    let connected = ProviderOAuthState { connected: true, ..Default::default() };
    assert_eq!(provider_connection_status(true, true, Some(&connected), false, true), (true, "Signed In"));
    assert_eq!(provider_connection_status(true, true, None, true, true), (true, "Signed In"));
}

#[test]
fn key_providers_need_a_key() {
    assert_eq!(provider_connection_status(false, true, None, true, false), (false, "No key"));
    assert_eq!(provider_connection_status(false, false, None, false, true), (true, "Ready"));
    assert_eq!(provider_connection_status(true, false, None, false, false), (false, "OAuth"));
}

#[test]
fn provider_protocol_variants() {
    assert_eq!(provider_label(&ProviderKind::ZAIAnthropic), "Z.AI / Anthropic");
    assert_eq!(provider_oauth_button_label(&ProviderKind::ChatGPT), Some("Auth ChatGPT"));
    assert_eq!(sidebar_provider_kind(&ProviderKind::MoonshotAnthropic), ProviderKind::Moonshot);
    assert_eq!(protocol_pair(&ProviderKind::MiniMaxAnthropic), Some((ProviderKind::MiniMax, ProviderKind::MiniMaxAnthropic)));
    assert_eq!(protocol_pair(&ProviderKind::OpenAI), None);
    assert!(uses_anthropic_protocol(&ProviderKind::ZAIAnthropic));
    assert_eq!(protocol_toggled_provider(&ProviderKind::ZAI, true), Some(ProviderKind::ZAIAnthropic));
    assert_eq!(provider_for_transport(&ProviderKind::MoonshotAnthropic, ProviderTransport::OpenAI), Some(ProviderKind::Moonshot));
    assert_eq!(sidebar_selection_target(&ProviderKind::MiniMax, &ProviderKind::MiniMaxAnthropic), ProviderKind::MiniMaxAnthropic);
    assert_eq!(sidebar_selection_target(&ProviderKind::ZAI, &ProviderKind::MiniMaxAnthropic), ProviderKind::ZAI);
}

#[test]
fn labels_and_names() {
    assert_eq!(SettingsSection::Configuration.label(), "Config");
    assert_eq!(SettingsSection::Keys.icon(), "phosphor/keyboard.svg");
    assert_eq!(human_join(&Vec::new()), "");
    assert_eq!(human_join(&vec!["a".to_string()]), "a");
    assert_eq!(human_join(&vec!["a".to_string(), "b".to_string()]), "a and b");
    assert_eq!(human_join(&vec!["a".to_string(), "b".to_string(), "c".to_string()]), "a, b, and c");
    assert_eq!(display_theme_name("catppuccin-mocha"), "Catppuccin");
    assert_eq!(display_theme_name("my-cool-theme"), "My Cool Theme");
    assert_eq!(display_theme_name("a--b"), "A  B");
    assert_eq!(display_theme_name("ßtrasse"), "SStrasse");
    assert_eq!(display_theme_name(""), "");
    assert_eq!(cursor_style_label("  BLOCK "), "Block");
    assert_eq!(cursor_style_label("block-hollow"), "Hollow Block");
    assert_eq!(cursor_style_label("beam"), "Bar");
    assert_eq!(cursor_style_from_label("Hollow Block"), "block_hollow");
    assert_eq!(cursor_style_from_label("anything"), "bar");
    assert_eq!(ai_purpose_label(AgentPurpose::Operate), "Operate");
    assert_eq!(ai_purpose_from_label("Explain"), AgentPurpose::Explain);
    assert_eq!(ai_purpose_from_label("?"), AgentPurpose::Build);
}

#[test]
fn endpoint_presets_and_labels() {
    assert_eq!(provider_endpoint_presets(&ProviderKind::Moonshot).len(), 3);
    assert!(provider_endpoint_presets(&ProviderKind::OpenAI).is_empty());
    assert_eq!(endpoint_options(&ProviderKind::OpenAI), vec!["Provider Default".to_string()]);
    assert_eq!(
        endpoint_options(&ProviderKind::MoonshotAnthropic),
        vec!["Provider Default", "Global", "Kimi Coding", "Custom"].iter().map(|s| s.to_string()).collect::<Vec<_>>()
    );
    assert_eq!(endpoint_label_for_base_url(&ProviderKind::ZAI, Some(" https://api.z.ai/api/coding/paas/v4 ")), "Coding");
    assert_eq!(endpoint_label_for_base_url(&ProviderKind::ZAI, Some("  ")), "Provider Default");
    assert_eq!(endpoint_label_for_base_url(&ProviderKind::ZAI, None), "Provider Default");
    assert_eq!(endpoint_label_for_base_url(&ProviderKind::ZAI, Some("http://localhost")), "Custom");
    assert_eq!(endpoint_label_for_base_url(&ProviderKind::MoonshotAnthropic, Some("https://api.kimi.com/coding/v1")), "Kimi Coding");
    assert!(source_endpoint_is_named_preset(&ProviderKind::MiniMax, Some("https://api.minimaxi.com/v1")));
    let (owner, preset) = endpoint_preset_for_label(&ProviderKind::MoonshotAnthropic, "Kimi Coding").unwrap();
    assert_eq!(owner, ProviderKind::Moonshot);
    assert_eq!(preset.base_url, "https://api.kimi.com/coding/v1");
    assert!(endpoint_preset_for_label(&ProviderKind::ZAI, "Nope").is_none());
}

#[test]
fn switching_protocol_maps_the_endpoint() {
    assert_eq!(
        mapped_protocol_base_url(&ProviderKind::MiniMax, &ProviderKind::MiniMaxAnthropic, Some("https://api.minimaxi.com/v1")),
        Some("https://api.minimaxi.com/anthropic".to_string())
    );
    assert_eq!(
        mapped_protocol_base_url(&ProviderKind::ZAI, &ProviderKind::ZAIAnthropic, None),
        Some("https://api.z.ai/api/anthropic".to_string())
    );
    assert_eq!(mapped_protocol_base_url(&ProviderKind::MiniMaxAnthropic, &ProviderKind::MiniMax, None), None);
    let source = ProviderConfig {
        model: Some("m".to_string()),
        api_key: None,
        api_key_env: Some("KEY".to_string()),
        max_tokens: Some(8),
        base_url: Some("https://api.minimax.io/v1".to_string()),
    };
    let target = ProviderConfig { model: Some("t".to_string()), api_key: None, api_key_env: None, max_tokens: None, base_url: Some("http://mine".to_string()) };
    let seeded = seed_protocol_variant_config(&ProviderKind::MiniMax, &ProviderKind::MiniMaxAnthropic, &source, &target);
    assert_eq!(seeded.model.as_deref(), Some("t"));
    assert_eq!(seeded.api_key_env.as_deref(), Some("KEY"));
    assert_eq!(seeded.max_tokens, Some(8));
    assert_eq!(seeded.base_url.as_deref(), Some("https://api.minimax.io/anthropic"));
}

fn default_like_bindings() -> KeybindingConfig {
    KeybindingConfig { bindings: (0..32).map(|i| format!("binding-{i}")).collect() }
}

#[test]
fn keybinding_field_mut_writes_same_field_that_binding_value_reads() {
    let mut kb = default_like_bindings();
    assert!(set_keybinding_field(&mut kb, "rename_surface", "custom-chord".to_string()));
    assert_eq!(keybinding_field(&kb, "rename_surface"), Some("custom-chord"));
    // Resetting through the accessor restores the shipped default.
    let defaults = default_like_bindings();
    assert!(set_keybinding_field(&mut kb, "rename_surface", keybinding_default(&defaults, "rename_surface").unwrap()));
    assert_eq!(keybinding_field(&kb, "rename_surface"), keybinding_field(&defaults, "rename_surface"));
    assert_eq!(keybinding_field(&kb, "quit"), Some("binding-31"));
    assert!(!set_keybinding_field(&mut kb, "not_a_real_field", "x".to_string()));
    assert_eq!(keybinding_field(&kb, "not_a_real_field"), None);
    assert_eq!(keybinding_field_index("global_summon"), Some(0));
}

#[test]
fn keystrokes_and_conflicts() {
    let ks = Keystroke { platform: true, control: false, alt: false, shift: true, key: "d".to_string() };
    assert_eq!(keystroke_to_binding(&ks), "cmd-shift-d");
    let message = keybinding_conflict_message("cmd-t", &vec!["New Tab".to_string(), "New Window".to_string()]);
    assert_eq!(message, "Shortcut conflict: cmd-t is assigned to New Tab and New Window. Pick a different shortcut before saving.");
    let mut error = Some("other".to_string());
    let mut kind = Some(SettingsSaveErrorKind::Other);
    sync_keybinding_conflict_error(&mut error, &mut kind, None);
    assert_eq!((error.as_deref(), kind), (Some("other"), Some(SettingsSaveErrorKind::Other)));
    sync_keybinding_conflict_error(&mut error, &mut kind, Some(message.clone()));
    assert_eq!(kind, Some(SettingsSaveErrorKind::KeybindingConflict));
    sync_keybinding_conflict_error(&mut error, &mut kind, None);
    assert_eq!((error, kind), (None, None));
}

fn draft(restore: bool) -> SettingsDraft<u32> {
    SettingsDraft { restore_terminal_text: restore, app_icon: "classic".to_string(), keybindings: default_like_bindings(), rest: 7 }
}

#[test]
fn settings_overlay_open_close_and_revert() {
    let mut panel = SettingsPanel::new(draft(true));
    let opened = panel.toggle(false, "saved".to_string());
    assert!(panel.visible && !panel.standalone);
    assert_eq!(opened, vec![SettingsEffect::AnimateOverlay { open: true, ms: 220 }, SettingsEffect::RefreshControls, SettingsEffect::Notify]);
    assert_eq!(panel.config().app_icon, "saved");
    panel.set_restore_terminal_text(false);
    let refused = panel.request_standalone_close(true, "saved".to_string());
    assert_eq!(refused.0, false);
    assert!(panel.close_confirmation_visible && panel.visible);
    let closed = panel.request_standalone_close(false, "saved".to_string());
    assert!(closed.0);
    assert!(!panel.visible);
    assert!(panel.config().restore_terminal_text, "the draft-only change is reverted");
    assert!(!panel.is_visible(false) && panel.is_visible(true));
}

#[test]
fn persisted_restore_value_survives_revert() {
    let mut panel = SettingsPanel::new(draft(true));
    panel.open_standalone("icon".to_string());
    assert!(panel.is_visible(false) && !panel.is_overlay_visible(false));
    panel.set_persisted_restore_terminal_text(false);
    let effects = panel.revert_standalone_preview("icon".to_string());
    assert_eq!(effects, vec![SettingsEffect::ReleaseIconPreview, SettingsEffect::EmitAppearancePreview, SettingsEffect::Notify]);
    assert!(!panel.config().restore_terminal_text);
    assert!(panel.preview_snapshot.is_none());
    let (ok, effects) = panel.request_standalone_close(false, "icon".to_string());
    assert!(ok);
    assert_eq!(effects.last(), Some(&SettingsEffect::RemoveWindow));
}

#[test]
fn closing_while_recording_resumes_hotkeys() {
    let mut panel = SettingsPanel::new(draft(false));
    panel.toggle(false, "i".to_string());
    panel.recording_key = Some("new_tab".to_string());
    let effects = panel.toggle(false, "i".to_string());
    assert_eq!(
        effects,
        vec![SettingsEffect::AnimateOverlay { open: false, ms: 180 }, SettingsEffect::ResumeGlobalHotkeys, SettingsEffect::Notify]
    );
    assert!(panel.recording_key.is_none());
}

#[test]
fn recording_a_shortcut_writes_the_binding() {
    let mut panel = SettingsPanel::new(draft(false));
    assert_eq!(panel.set_recording_key(Some("new_tab".to_string())), vec![SettingsEffect::SuspendGlobalHotkeys]);
    let shift = Keystroke { platform: false, control: false, alt: false, shift: true, key: "shift".to_string() };
    assert!(panel.record_keystroke(&shift).is_empty());
    assert_eq!(panel.recording_key.as_deref(), Some("new_tab"));
    let ks = Keystroke { platform: true, control: false, alt: true, shift: false, key: "t".to_string() };
    let effects = panel.record_keystroke(&ks);
    assert_eq!(
        effects,
        vec![SettingsEffect::ResumeGlobalHotkeys, SettingsEffect::CheckKeybindingConflicts, SettingsEffect::Notify]
    );
    assert_eq!(panel.binding_value("new_tab"), "cmd-alt-t");
    assert_eq!(panel.binding_value("new_window"), "binding-2");
    assert_eq!(panel.binding_value("nothing"), "");
    assert!(panel.recording_key.is_none());
    assert!(panel.record_keystroke(&ks).is_empty());
}

#[test]
fn escape_cancels_recording() {
    let mut panel = SettingsPanel::new(draft(false));
    panel.set_recording_key(Some("quit".to_string()));
    let esc = Keystroke { platform: false, control: false, alt: false, shift: false, key: "escape".to_string() };
    assert_eq!(panel.record_keystroke(&esc), vec![SettingsEffect::ResumeGlobalHotkeys, SettingsEffect::Notify]);
    assert!(panel.recording_key.is_none());
    assert_eq!(panel.binding_value("quit"), "binding-31");
}

#[test]
fn resetting_keybindings() {
    let mut panel = SettingsPanel::new(draft(false));
    assert!(panel.reset_keybinding("quit", None).is_empty());
    let effects = panel.reset_keybinding("quit", Some("cmd-q".to_string()));
    assert_eq!(effects, vec![SettingsEffect::CheckKeybindingConflicts, SettingsEffect::Notify]);
    assert_eq!(panel.binding_value("quit"), "cmd-q");
    panel.set_recording_key(Some("quit".to_string()));
    let defaults = KeybindingConfig { bindings: (0..32).map(|i| format!("d-{i}")).collect() };
    let effects = panel.reset_all_keybindings(defaults);
    assert_eq!(
        effects,
        vec![SettingsEffect::ResumeGlobalHotkeys, SettingsEffect::CheckKeybindingConflicts, SettingsEffect::Notify]
    );
    assert_eq!(panel.binding_value("quit"), "d-31");
    assert!(panel.recording_key.is_none());
}

#[test]
fn conflict_errors_come_and_go() {
    let mut panel = SettingsPanel::new(draft(false));
    panel.sync_conflict_error(Some("clash".to_string()));
    assert_eq!(panel.save_error.as_deref(), Some("clash"));
    assert_eq!(panel.save_error_kind, Some(SettingsSaveErrorKind::KeybindingConflict));
    panel.sync_conflict_error(None);
    assert_eq!((panel.save_error.clone(), panel.save_error_kind), (None, None));
}

#[test]
fn unsaved_changes_need_a_snapshot() {
    let mut panel = SettingsPanel::new(draft(false));
    assert!(!panel.has_unsaved_changes(false, false));
    panel.toggle(false, "i".to_string());
    assert!(panel.has_unsaved_changes(false, true));
    assert!(panel.has_unsaved_changes(true, false));
    assert!(!panel.has_unsaved_changes(true, true));
}

#[test]
fn close_prompt_keep_editing_and_discard() {
    let mut panel = SettingsPanel::new(draft(true));
    panel.toggle(false, "i".to_string());
    panel.set_restore_terminal_text(false);
    let (allowed, effects) = panel.request_close(true, "i".to_string());
    assert!(!allowed);
    assert_eq!(effects, vec![SettingsEffect::Notify]);
    assert!(panel.close_confirmation_visible);
    assert_eq!(panel.keep_editing_after_close_prompt(), vec![SettingsEffect::Notify]);
    assert!(!panel.close_confirmation_visible && panel.visible);
    let effects = panel.discard_and_close("i".to_string());
    assert_eq!(
        effects,
        vec![
            SettingsEffect::ReleaseIconPreview,
            SettingsEffect::EmitAppearancePreview,
            SettingsEffect::Notify,
            SettingsEffect::AnimateOverlay { open: false, ms: 180 },
            SettingsEffect::Notify,
        ]
    );
    assert!(!panel.visible);
    assert!(panel.config().restore_terminal_text);
}

#[test]
fn discarding_a_standalone_window_removes_it() {
    let mut panel = SettingsPanel::new(draft(true));
    panel.open_standalone("i".to_string());
    let effects = panel.discard_and_close("i".to_string());
    assert_eq!(effects.last(), Some(&SettingsEffect::RemoveWindow));
    assert!(panel.visible);
}

#[test]
fn saving_reports_errors_and_closes_the_overlay() {
    let mut panel = SettingsPanel::new(draft(true));
    panel.toggle(false, "i".to_string());
    let (go, effects) = panel.begin_save(true);
    assert!(!go);
    assert_eq!(effects, vec![SettingsEffect::Notify]);
    assert_eq!(
        panel.save_error.as_deref(),
        Some("Finish the configuration import or restart Con before saving settings.")
    );
    panel.set_recording_key(Some("quit".to_string()));
    let (go, effects) = panel.begin_save(false);
    assert!(go);
    assert_eq!(effects, vec![SettingsEffect::ResumeGlobalHotkeys]);
    let effects = panel.finish_save(SaveOutcome::KeybindingConflict("clash".to_string()));
    assert_eq!(effects, vec![SettingsEffect::Notify]);
    assert_eq!(panel.save_error_kind, Some(SettingsSaveErrorKind::KeybindingConflict));
    assert_eq!(panel.close_after_save(), vec![SettingsEffect::Notify]);
    assert!(panel.close_confirmation_visible);
    panel.finish_save(SaveOutcome::PersistFailed("disk full".to_string()));
    assert_eq!(panel.save_error.as_deref(), Some("disk full"));
    assert_eq!(panel.save_error_kind, Some(SettingsSaveErrorKind::Other));
    panel.set_restore_terminal_text(false);
    let effects = panel.finish_save(SaveOutcome::Saved);
    assert_eq!(
        effects,
        vec![
            SettingsEffect::RecordSaveTime,
            SettingsEffect::AnimateOverlay { open: false, ms: 180 },
            SettingsEffect::EmitSaveSettings,
            SettingsEffect::Notify,
        ]
    );
    assert!(panel.save_error.is_none() && !panel.visible);
    assert_eq!(panel.preview_snapshot.as_ref().map(|s| s.restore_terminal_text), Some(false));
    assert!(panel.close_after_save().is_empty());
    assert!(!panel.close_confirmation_visible);
}

#[test]
fn protocol_switch_texts_and_purposes() {
    assert_eq!(protocol_switch_label(&ProviderKind::MoonshotAnthropic), Some("Anthropic API"));
    assert_eq!(protocol_switch_label(&ProviderKind::Groq), None);
    assert_eq!(protocol_switch_hint(&ProviderKind::ZAI), Some("OpenAI- or Anthropic-compatible API"));
    assert_eq!(protocol_switch_hint(&ProviderKind::OpenAI), None);
    assert_eq!(ai_purpose_options(), vec!["Build", "Explain", "Operate"]);
    assert!(effective_terminal_blur(true, true));
    assert!(!effective_terminal_blur(true, false));
    assert!(!effective_terminal_blur(false, true));
}
