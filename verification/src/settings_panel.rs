use vstd::prelude::*;
use crate::keybindings::{
    KeybindingConfig, Keystroke, SettingsSaveErrorKind, binding_of, keybinding_field, keybinding_index,
    keystroke_to_binding, set_keybinding_field, sync_keybinding_conflict_error,
};

verus! {

/// The settings being edited: the fields the panel's own logic reads, and
/// the rest of the configuration.
pub struct SettingsDraft<C> {
    pub restore_terminal_text: bool,
    pub app_icon: String,
    pub keybindings: KeybindingConfig,
    pub rest: C,
}

/// `b` is a copy of `a`.
pub open spec fn draft_copy<C: Clone>(a: SettingsDraft<C>, b: SettingsDraft<C>) -> bool {
    &&& b.restore_terminal_text == a.restore_terminal_text
    &&& b.app_icon == a.app_icon
    &&& b.keybindings.bindings@ == a.keybindings.bindings@
    &&& cloned(a.rest, b.rest)
}

fn clone_draft<C: Clone>(d: &SettingsDraft<C>) -> (r: SettingsDraft<C>)
    ensures
        draft_copy(*d, r),
{
    SettingsDraft {
        restore_terminal_text: d.restore_terminal_text,
        app_icon: d.app_icon.clone(),
        keybindings: d.keybindings.duplicate(),
        rest: d.rest.clone(),
    }
}

/// The event telling listeners to preview the theme of this name.
pub struct ThemePreview(pub String);

/// The event telling listeners that a light appearance change should show
/// at once, without saving or rebuilding the whole configuration.
pub struct AppearancePreview;

/// Work that a settings decision hands to the window, in order.
#[derive(Clone, Copy, Debug, PartialEq, Eq, Structural)]
pub enum SettingsEffect {
    /// Animate the overlay toward open or closed over `ms` milliseconds.
    AnimateOverlay { open: bool, ms: u32 },
    /// Reload the form controls from the draft.
    RefreshControls,
    Notify,
    /// Put back the app icon that a preview replaced.
    ReleaseIconPreview,
    /// Tell listeners that the appearance changed.
    EmitAppearancePreview,
    /// Close the standalone settings window.
    RemoveWindow,
    /// Key recording started: turn the global hotkeys off (with the saved
    /// keybindings) while a shortcut is typed.
    SuspendGlobalHotkeys,
    /// Key recording ended: turn the global hotkeys back on.
    ResumeGlobalHotkeys,
    /// The keybindings of the draft changed: look for shortcut conflicts
    /// and report them through `sync_conflict_error`.
    CheckKeybindingConflicts,
    /// Remember the time of a successful save.
    RecordSaveTime,
    /// Tell listeners that the settings were saved.
    EmitSaveSettings,
}

/// How the work of a save ended, after the panel allowed it to begin.
pub enum SaveOutcome {
    /// The form holds a value that cannot be saved.
    FormInvalid(String),
    /// Two actions share a shortcut (the conflict message).
    KeybindingConflict(String),
    /// The platform refused the settings.
    Rejected(String),
    /// Writing the settings failed.
    PersistFailed(String),
    /// The settings were written.
    Saved,
}

/// The error shown when a save is tried during a configuration import.
pub open spec fn import_blocks_message() -> Seq<char> {
    "Finish the configuration import or restart Con before saving settings."@
}

/// Key names that are not recorded as a shortcut (Escape cancels).
pub open spec fn is_unrecorded_key(key: Seq<char>) -> bool {
    key == "shift"@ || key == "control"@ || key == "alt"@ || key == "meta"@ || key == "fn"@ || key == "escape"@
}

/// The state of the settings panel (overlay or standalone window).
pub struct SettingsPanel<C> {
    pub visible: bool,
    pub standalone: bool,
    pub close_confirmation_visible: bool,
    /// The keybinding field being recorded, if any.
    pub recording_key: Option<String>,
    pub config: SettingsDraft<C>,
    /// The settings as they were when the panel opened, to revert to.
    pub preview_snapshot: Option<SettingsDraft<C>>,
    /// Why the last save failed, if it did.
    pub save_error: Option<String>,
    pub save_error_kind: Option<SettingsSaveErrorKind>,
}

/// The effects of starting (`will`) or ending key recording.
pub open spec fn recording_change_effects(was: bool, will: bool) -> Seq<SettingsEffect> {
    if !was && will {
        seq![SettingsEffect::SuspendGlobalHotkeys]
    } else if was && !will {
        seq![SettingsEffect::ResumeGlobalHotkeys]
    } else {
        Seq::empty()
    }
}

/// The effects of ending key recording.
pub open spec fn end_recording_effects(recording: Option<String>) -> Seq<SettingsEffect> {
    recording_change_effects(recording is Some, false)
}

/// `b` shows the same save error as `a`.
pub open spec fn keeps_errors<C>(a: SettingsPanel<C>, b: SettingsPanel<C>) -> bool {
    b.save_error == a.save_error && b.save_error_kind == a.save_error_kind
}

/// The restore-text flags (draft, snapshot) once a value that is already
/// saved is set.
pub open spec fn persisted_restore_flags<C>(p: SettingsPanel<C>, enabled: bool) -> (bool, Option<bool>) {
    (enabled, Some(enabled))
}

/// The restore-text flags (draft, snapshot) once a draft-only value is set:
/// the snapshot keeps the value from before when there was none.
pub open spec fn draft_restore_flags<C>(p: SettingsPanel<C>, enabled: bool) -> (bool, Option<bool>) {
    (enabled, Some(match p.preview_snapshot {
        Some(s) => s.restore_terminal_text,
        None => p.config.restore_terminal_text,
    }))
}

/// The restore-text flag a revert leaves: the snapshot's, else the draft's.
pub open spec fn reverted_restore_flag(flags: (bool, Option<bool>)) -> bool {
    match flags.1 {
        Some(b) => b,
        None => flags.0,
    }
}

impl<C> SettingsPanel<C> {
    /// The draft and the snapshot hold one binding per keybinding.
    pub open spec fn wf(&self) -> bool {
        &&& self.config.keybindings.wf()
        &&& self.preview_snapshot matches Some(s) ==> s.keybindings.wf()
    }
}

impl<C: Clone> SettingsPanel<C> {
    /// A hidden panel editing `config`.
    pub fn new(config: SettingsDraft<C>) -> (r: Self)
        ensures
            !r.visible && !r.standalone && !r.close_confirmation_visible,
            r.recording_key is None,
            r.config == config,
            r.preview_snapshot is None,
            r.save_error is None && r.save_error_kind is None,
    {
        SettingsPanel {
            visible: false,
            standalone: false,
            close_confirmation_visible: false,
            recording_key: None,
            config,
            preview_snapshot: None,
            save_error: None,
            save_error_kind: None,
        }
    }

    /// Starts recording a shortcut for the keybinding named `key`, or
    /// stops recording (`None`); the global hotkeys are off while a
    /// shortcut is recorded.
    pub fn set_recording_key(&mut self, key: Option<String>) -> (r: Vec<SettingsEffect>)
        ensures
            *final(self) == (SettingsPanel { recording_key: key, ..*old(self) }),
            r@ == recording_change_effects(old(self).recording_key is Some, key is Some),
    {
        let was_recording = self.recording_key.is_some();
        let will_record = key.is_some();
        self.recording_key = key;
        let mut r = Vec::new();
        if !was_recording && will_record {
            r.push(SettingsEffect::SuspendGlobalHotkeys);
        } else if was_recording && !will_record {
            r.push(SettingsEffect::ResumeGlobalHotkeys);
        }
        r
    }

    fn end_recording(&mut self) -> (r: Vec<SettingsEffect>)
        ensures
            *final(self) == (SettingsPanel { recording_key: None, ..*old(self) }),
            r@ == end_recording_effects(old(self).recording_key),
    {
        self.set_recording_key(None)
    }

    /// Opens or closes the overlay. Closing with unsaved changes
    /// (`has_unsaved_changes`) asks for confirmation instead; opening adopts
    /// the saved app icon and takes a snapshot to revert to.
    pub fn toggle(&mut self, has_unsaved_changes: bool, saved_app_icon: String) -> (r: Vec<SettingsEffect>)
        ensures
            keeps_errors(*old(self), *final(self)),
            !final(self).standalone,
            final(self).recording_key == (if old(self).visible && !has_unsaved_changes { None } else { old(self).recording_key }),
            old(self).visible && has_unsaved_changes ==> {
                &&& final(self).visible && final(self).close_confirmation_visible
                &&& final(self).config == old(self).config && final(self).preview_snapshot == old(self).preview_snapshot
                &&& r@ == seq![SettingsEffect::Notify]
            },
            old(self).visible && !has_unsaved_changes ==> {
                &&& !final(self).visible
                &&& final(self).close_confirmation_visible == old(self).close_confirmation_visible
                &&& final(self).config == old(self).config && final(self).preview_snapshot == old(self).preview_snapshot
                &&& r@ == seq![SettingsEffect::AnimateOverlay { open: false, ms: 180 }] + end_recording_effects(old(self).recording_key)
                    + seq![SettingsEffect::Notify]
            },
            !old(self).visible ==> {
                &&& final(self).visible && !final(self).close_confirmation_visible
                &&& final(self).config == (SettingsDraft { app_icon: saved_app_icon, ..old(self).config })
                &&& final(self).preview_snapshot matches Some(s) && draft_copy(final(self).config, s)
                &&& r@ == seq![
                    SettingsEffect::AnimateOverlay { open: true, ms: 220 },
                    SettingsEffect::RefreshControls,
                    SettingsEffect::Notify,
                ]
            },
    {
        self.standalone = false;
        let mut r = Vec::new();
        if self.visible {
            if has_unsaved_changes {
                self.close_confirmation_visible = true;
                r.push(SettingsEffect::Notify);
                return r;
            }
            self.visible = false;
            r.push(SettingsEffect::AnimateOverlay { open: false, ms: 180 });
            let mut ended = self.end_recording();
            r.append(&mut ended);
        } else {
            self.config.app_icon = saved_app_icon;
            self.preview_snapshot = Some(clone_draft(&self.config));
            self.close_confirmation_visible = false;
            self.visible = true;
            r.push(SettingsEffect::AnimateOverlay { open: true, ms: 220 });
            r.push(SettingsEffect::RefreshControls);
        }
        r.push(SettingsEffect::Notify);
        r
    }

    /// Shows the settings in their own window, with a fresh snapshot.
    pub fn open_standalone(&mut self, saved_app_icon: String) -> (r: Vec<SettingsEffect>)
        ensures
            keeps_errors(*old(self), *final(self)),
            final(self).standalone && final(self).visible && !final(self).close_confirmation_visible,
            final(self).recording_key == old(self).recording_key,
            final(self).config == (SettingsDraft { app_icon: saved_app_icon, ..old(self).config }),
            final(self).preview_snapshot matches Some(s) && draft_copy(final(self).config, s),
            r@ == seq![
                SettingsEffect::AnimateOverlay { open: true, ms: 0 },
                SettingsEffect::RefreshControls,
                SettingsEffect::Notify,
            ],
    {
        self.standalone = true;
        self.visible = true;
        self.config.app_icon = saved_app_icon;
        self.preview_snapshot = Some(clone_draft(&self.config));
        self.close_confirmation_visible = false;
        let mut r = Vec::new();
        r.push(SettingsEffect::AnimateOverlay { open: true, ms: 0 });
        r.push(SettingsEffect::RefreshControls);
        r.push(SettingsEffect::Notify);
        r
    }

    /// Drops the edits made since the panel opened: the snapshot, if any,
    /// becomes the draft again (with the saved app icon).
    pub fn revert_standalone_preview(&mut self, saved_app_icon: String) -> (r: Vec<SettingsEffect>)
        ensures
            keeps_errors(*old(self), *final(self)),
            !final(self).close_confirmation_visible,
            final(self).recording_key is None,
            final(self).visible == old(self).visible,
            final(self).standalone == old(self).standalone,
            final(self).preview_snapshot is None,
            match old(self).preview_snapshot {
                Some(s) => {
                    &&& final(self).config == (SettingsDraft { app_icon: saved_app_icon, ..s })
                    &&& r@ == end_recording_effects(old(self).recording_key) + seq![
                        SettingsEffect::ReleaseIconPreview,
                        SettingsEffect::EmitAppearancePreview,
                        SettingsEffect::Notify,
                    ]
                },
                None => final(self).config == old(self).config && r@ == end_recording_effects(old(self).recording_key),
            },
    {
        self.close_confirmation_visible = false;
        let mut r = self.end_recording();
        let ghost head = r@;
        match self.preview_snapshot.take() {
            Some(snapshot) => {
                r.push(SettingsEffect::ReleaseIconPreview);
                self.config = snapshot;
                self.config.app_icon = saved_app_icon;
                r.push(SettingsEffect::EmitAppearancePreview);
                r.push(SettingsEffect::Notify);
                proof {
                    assert(r@ =~= head + seq![
                        SettingsEffect::ReleaseIconPreview,
                        SettingsEffect::EmitAppearancePreview,
                        SettingsEffect::Notify,
                    ]);
                }
            },
            None => {},
        }
        r
    }

    /// Whether the panel shows, counting a closing animation.
    pub fn is_visible(&self, overlay_animating: bool) -> (r: bool)
        ensures
            r == (self.visible || overlay_animating),
    {
        self.visible || overlay_animating
    }

    /// Whether the panel shows as an overlay of the workspace.
    pub fn is_overlay_visible(&self, overlay_animating: bool) -> (r: bool)
        ensures
            r == (!self.standalone && (self.visible || overlay_animating)),
    {
        !self.standalone && self.is_visible(overlay_animating)
    }

    /// A request to close (a key press or the window's close button):
    /// refused with a confirmation while there are unsaved changes; else the
    /// edits are dropped and the window or overlay closes.
    pub fn request_standalone_close(&mut self, has_unsaved_changes: bool, saved_app_icon: String) -> (r: (
        bool,
        Vec<SettingsEffect>,
    ))
        ensures
            keeps_errors(*old(self), *final(self)),
            r.0 == !has_unsaved_changes,
            has_unsaved_changes ==> {
                &&& final(self).close_confirmation_visible
                &&& final(self).visible == old(self).visible && final(self).standalone == old(self).standalone
                &&& final(self).config == old(self).config && final(self).preview_snapshot == old(self).preview_snapshot
                &&& final(self).recording_key == old(self).recording_key
                &&& r.1@ == seq![SettingsEffect::Notify]
            },
            !has_unsaved_changes ==> {
                &&& final(self).recording_key is None
                &&& old(self).standalone || old(self).visible ==> final(self).preview_snapshot is None
                    && !final(self).close_confirmation_visible
                &&& old(self).standalone ==> final(self).standalone && final(self).visible == old(self).visible
                    && r.1@.last() == SettingsEffect::RemoveWindow
                &&& !old(self).standalone && old(self).visible ==> !final(self).visible
                &&& final(self).config.restore_terminal_text == match old(self).preview_snapshot {
                    Some(s) => s.restore_terminal_text,
                    None => old(self).config.restore_terminal_text,
                }
            },
    {
        let (allowed, mut r) = self.request_close(has_unsaved_changes, saved_app_icon.clone());
        if !allowed {
            return (false, r);
        }
        if self.standalone {
            r.push(SettingsEffect::RemoveWindow);
        } else {
            let mut closing = self.toggle(false, saved_app_icon);
            r.append(&mut closing);
        }
        (true, r)
    }

    /// The close request shared by the window and the overlay: with unsaved
    /// changes the confirmation shows and the close is refused; otherwise
    /// the edits are dropped and the caller may close.
    pub fn request_close(&mut self, has_unsaved_changes: bool, saved_app_icon: String) -> (r: (bool, Vec<SettingsEffect>))
        ensures
            keeps_errors(*old(self), *final(self)),
            r.0 == !has_unsaved_changes,
            has_unsaved_changes ==> {
                &&& *final(self) == (SettingsPanel { close_confirmation_visible: true, ..*old(self) })
                &&& r.1@ == seq![SettingsEffect::Notify]
            },
            !has_unsaved_changes ==> {
                &&& !final(self).close_confirmation_visible
                &&& final(self).recording_key is None
                &&& final(self).visible == old(self).visible && final(self).standalone == old(self).standalone
                &&& final(self).preview_snapshot is None
                &&& match old(self).preview_snapshot {
                    Some(s) => {
                        &&& final(self).config == (SettingsDraft { app_icon: saved_app_icon, ..s })
                        &&& r.1@ == end_recording_effects(old(self).recording_key) + seq![
                            SettingsEffect::ReleaseIconPreview,
                            SettingsEffect::EmitAppearancePreview,
                            SettingsEffect::Notify,
                        ]
                    },
                    None => final(self).config == old(self).config && r.1@ == end_recording_effects(old(self).recording_key),
                }
            },
    {
        if has_unsaved_changes {
            self.close_confirmation_visible = true;
            let mut r = Vec::new();
            r.push(SettingsEffect::Notify);
            return (false, r);
        }
        let r = self.revert_standalone_preview(saved_app_icon);
        (true, r)
    }

    /// Whether the draft differs from the snapshot: `form_synced` says
    /// whether the form could be read into the draft, `same_as_snapshot`
    /// whether the draft then equals the snapshot. Without a snapshot
    /// nothing is unsaved.
    pub fn has_unsaved_changes(&self, form_synced: bool, same_as_snapshot: bool) -> (r: bool)
        ensures
            r == (self.preview_snapshot is Some && (!form_synced || !same_as_snapshot)),
    {
        match &self.preview_snapshot {
            None => false,
            Some(_) => !form_synced || !same_as_snapshot,
        }
    }

    /// Hides the close confirmation and keeps the panel open.
    pub fn keep_editing_after_close_prompt(&mut self) -> (r: Vec<SettingsEffect>)
        ensures
            *final(self) == (SettingsPanel { close_confirmation_visible: false, ..*old(self) }),
            r@ == seq![SettingsEffect::Notify],
    {
        self.close_confirmation_visible = false;
        let mut r = Vec::new();
        r.push(SettingsEffect::Notify);
        r
    }

    /// Drops the edits and closes: the standalone window goes away; the
    /// overlay hides with its closing animation.
    pub fn discard_and_close(&mut self, saved_app_icon: String) -> (r: Vec<SettingsEffect>)
        ensures
            keeps_errors(*old(self), *final(self)),
            !final(self).close_confirmation_visible,
            final(self).recording_key is None,
            final(self).preview_snapshot is None,
            final(self).standalone == old(self).standalone,
            final(self).config == match old(self).preview_snapshot {
                Some(s) => SettingsDraft { app_icon: saved_app_icon, ..s },
                None => old(self).config,
            },
            ({
                let reverted = end_recording_effects(old(self).recording_key) + if old(self).preview_snapshot is Some {
                    seq![SettingsEffect::ReleaseIconPreview, SettingsEffect::EmitAppearancePreview, SettingsEffect::Notify]
                } else {
                    Seq::empty()
                };
                if old(self).standalone {
                    final(self).visible == old(self).visible && r@ == reverted + seq![SettingsEffect::RemoveWindow]
                } else {
                    !final(self).visible && r@ == reverted + seq![
                        SettingsEffect::AnimateOverlay { open: false, ms: 180 },
                        SettingsEffect::Notify,
                    ]
                }
            }),
    {
        let mut r = self.revert_standalone_preview(saved_app_icon);
        if self.standalone {
            r.push(SettingsEffect::RemoveWindow);
            return r;
        }
        self.visible = false;
        r.push(SettingsEffect::AnimateOverlay { open: false, ms: 180 });
        let mut ended = self.end_recording();
        r.append(&mut ended);
        r.push(SettingsEffect::Notify);
        r
    }

    /// Starts a save: refused while a configuration import is under way
    /// (`import_blocks_settings`), else key recording ends and the caller
    /// reads the form, checks and writes the settings, then reports with
    /// `finish_save`.
    pub fn begin_save(&mut self, import_blocks_settings: bool) -> (r: (bool, Vec<SettingsEffect>))
        ensures
            r.0 == !import_blocks_settings,
            import_blocks_settings ==> {
                &&& final(self).save_error matches Some(m) && m@ == import_blocks_message()
                &&& final(self).save_error_kind == Some(SettingsSaveErrorKind::Other)
                &&& final(self).recording_key == old(self).recording_key
                &&& r.1@ == seq![SettingsEffect::Notify]
            },
            !import_blocks_settings ==> {
                &&& keeps_errors(*old(self), *final(self))
                &&& final(self).recording_key is None
                &&& r.1@ == end_recording_effects(old(self).recording_key)
            },
            final(self).visible == old(self).visible && final(self).standalone == old(self).standalone,
            final(self).close_confirmation_visible == old(self).close_confirmation_visible,
            final(self).config == old(self).config && final(self).preview_snapshot == old(self).preview_snapshot,
    {
        if import_blocks_settings {
            self.save_error = Some("Finish the configuration import or restart Con before saving settings.".to_owned());
            self.save_error_kind = Some(SettingsSaveErrorKind::Other);
            let mut r = Vec::new();
            r.push(SettingsEffect::Notify);
            return (false, r);
        }
        let r = self.end_recording();
        (true, r)
    }

    /// Ends a save with what came of it: an error is shown (a shortcut
    /// conflict as such); a written save clears the error, becomes the new
    /// snapshot and closes the overlay.
    pub fn finish_save(&mut self, outcome: SaveOutcome) -> (r: Vec<SettingsEffect>)
        ensures
            final(self).recording_key == old(self).recording_key,
            final(self).standalone == old(self).standalone,
            final(self).close_confirmation_visible == old(self).close_confirmation_visible,
            final(self).config == old(self).config,
            match outcome {
                SaveOutcome::Saved => {
                    &&& final(self).save_error is None && final(self).save_error_kind is None
                    &&& final(self).preview_snapshot matches Some(s) && draft_copy(old(self).config, s)
                    &&& if old(self).standalone {
                        &&& final(self).visible == old(self).visible
                        &&& r@ == seq![SettingsEffect::RecordSaveTime, SettingsEffect::EmitSaveSettings, SettingsEffect::Notify]
                    } else {
                        &&& !final(self).visible
                        &&& r@ == seq![
                            SettingsEffect::RecordSaveTime,
                            SettingsEffect::AnimateOverlay { open: false, ms: 180 },
                            SettingsEffect::EmitSaveSettings,
                            SettingsEffect::Notify,
                        ]
                    }
                },
                SaveOutcome::KeybindingConflict(m) => {
                    &&& final(self).save_error == Some(m)
                    &&& final(self).save_error_kind == Some(SettingsSaveErrorKind::KeybindingConflict)
                    &&& final(self).visible == old(self).visible
                    &&& final(self).preview_snapshot == old(self).preview_snapshot
                    &&& r@ == seq![SettingsEffect::Notify]
                },
                SaveOutcome::FormInvalid(m) | SaveOutcome::Rejected(m) | SaveOutcome::PersistFailed(m) => {
                    &&& final(self).save_error == Some(m)
                    &&& final(self).save_error_kind == Some(SettingsSaveErrorKind::Other)
                    &&& final(self).visible == old(self).visible
                    &&& final(self).preview_snapshot == old(self).preview_snapshot
                    &&& r@ == seq![SettingsEffect::Notify]
                },
            },
    {
        let mut r = Vec::new();
        match outcome {
            SaveOutcome::Saved => {
                self.save_error = None;
                self.save_error_kind = None;
                r.push(SettingsEffect::RecordSaveTime);
                self.preview_snapshot = Some(clone_draft(&self.config));
                if !self.standalone {
                    self.visible = false;
                    r.push(SettingsEffect::AnimateOverlay { open: false, ms: 180 });
                }
                r.push(SettingsEffect::EmitSaveSettings);
            },
            SaveOutcome::KeybindingConflict(m) => {
                self.save_error = Some(m);
                self.save_error_kind = Some(SettingsSaveErrorKind::KeybindingConflict);
            },
            SaveOutcome::FormInvalid(m) => {
                self.save_error = Some(m);
                self.save_error_kind = Some(SettingsSaveErrorKind::Other);
            },
            SaveOutcome::Rejected(m) => {
                self.save_error = Some(m);
                self.save_error_kind = Some(SettingsSaveErrorKind::Other);
            },
            SaveOutcome::PersistFailed(m) => {
                self.save_error = Some(m);
                self.save_error_kind = Some(SettingsSaveErrorKind::Other);
            },
        }
        r.push(SettingsEffect::Notify);
        r
    }

    /// What follows a save made to close the panel: on success the
    /// confirmation hides and a standalone window closes; on failure the
    /// confirmation stays up.
    pub fn close_after_save(&mut self) -> (r: Vec<SettingsEffect>)
        ensures
            keeps_errors(*old(self), *final(self)),
            *final(self) == (SettingsPanel { close_confirmation_visible: old(self).save_error is Some, ..*old(self) }),
            old(self).save_error is None ==> r@ == (if old(self).standalone {
                seq![SettingsEffect::RemoveWindow]
            } else {
                Seq::empty()
            }),
            old(self).save_error is Some ==> r@ == seq![SettingsEffect::Notify],
    {
        let mut r = Vec::new();
        if self.save_error.is_none() {
            self.close_confirmation_visible = false;
            if self.standalone {
                r.push(SettingsEffect::RemoveWindow);
            }
        } else {
            self.close_confirmation_visible = true;
            r.push(SettingsEffect::Notify);
        }
        r
    }

    /// Shows a shortcut conflict found in the draft's keybindings
    /// (`message`) as the save error, or clears a conflict error that no
    /// longer holds.
    pub fn sync_conflict_error(&mut self, message: Option<String>)
        ensures
            final(self).visible == old(self).visible && final(self).standalone == old(self).standalone,
            final(self).close_confirmation_visible == old(self).close_confirmation_visible,
            final(self).recording_key == old(self).recording_key,
            final(self).config == old(self).config && final(self).preview_snapshot == old(self).preview_snapshot,
            match message {
                Some(m) => final(self).save_error == Some(m) && final(self).save_error_kind == Some(
                    SettingsSaveErrorKind::KeybindingConflict,
                ),
                None => if old(self).save_error_kind == Some(SettingsSaveErrorKind::KeybindingConflict) {
                    final(self).save_error is None && final(self).save_error_kind is None
                } else {
                    keeps_errors(*old(self), *final(self))
                },
            },
    {
        sync_keybinding_conflict_error(&mut self.save_error, &mut self.save_error_kind, message);
    }

    /// Takes a key press while a shortcut is recorded: modifier keys alone
    /// are ignored, Escape cancels, any other key becomes the binding of the
    /// keybinding being recorded.
    pub fn record_keystroke(&mut self, keystroke: &Keystroke) -> (r: Vec<SettingsEffect>)
        requires
            old(self).wf(),
        ensures
            final(self).wf(),
            keeps_errors(*old(self), *final(self)),
            final(self).visible == old(self).visible && final(self).standalone == old(self).standalone,
            final(self).close_confirmation_visible == old(self).close_confirmation_visible,
            final(self).preview_snapshot == old(self).preview_snapshot,
            match old(self).recording_key {
                None => *final(self) == *old(self) && r@.len() == 0,
                Some(field) => if is_unrecorded_key(keystroke.key@) {
                    if keystroke.key@ == "escape"@ {
                        &&& *final(self) == (SettingsPanel { recording_key: None, ..*old(self) })
                        &&& r@ == seq![SettingsEffect::ResumeGlobalHotkeys, SettingsEffect::Notify]
                    } else {
                        *final(self) == *old(self) && r@.len() == 0
                    }
                } else {
                    &&& final(self).recording_key is None
                    &&& final(self).config.restore_terminal_text == old(self).config.restore_terminal_text
                    &&& final(self).config.app_icon == old(self).config.app_icon
                    &&& final(self).config.rest == old(self).config.rest
                    &&& final(self).config.keybindings.bindings@.map_values(|b: String| b@) == match keybinding_index(field@) {
                        Some(i) => old(self).config.keybindings.bindings@.map_values(|b: String| b@).update(i, binding_of(*keystroke)),
                        None => old(self).config.keybindings.bindings@.map_values(|b: String| b@),
                    }
                    &&& r@ == seq![
                        SettingsEffect::ResumeGlobalHotkeys,
                        SettingsEffect::CheckKeybindingConflicts,
                        SettingsEffect::Notify,
                    ]
                },
            },
    {
        let field = match &self.recording_key {
            Some(f) => f.clone(),
            None => return Vec::new(),
        };
        let key = keystroke.key.as_str();
        proof {
            reveal_strlit("shift");
            reveal_strlit("control");
            reveal_strlit("alt");
            reveal_strlit("meta");
            reveal_strlit("fn");
            reveal_strlit("escape");
        }
        let is_escape = crate::theme::same_text(key, "escape");
        if is_escape || crate::theme::same_text(key, "shift") || crate::theme::same_text(key, "control")
            || crate::theme::same_text(key, "alt") || crate::theme::same_text(key, "meta")
            || crate::theme::same_text(key, "fn") {
            if is_escape {
                let mut r = self.end_recording();
                r.push(SettingsEffect::Notify);
                return r;
            }
            return Vec::new();
        }
        let binding = keystroke_to_binding(keystroke);
        let ghost before = self.config.keybindings.bindings@;
        set_keybinding_field(&mut self.config.keybindings, field.as_str(), binding);
        proof {
            match keybinding_index(field@) {
                Some(i) => {
                    crate::keybindings::lemma_field_index_bounds(crate::keybindings::keybinding_field_names(), field@, 0);
                    assert(self.config.keybindings.bindings@.map_values(|b: String| b@)
                        =~= before.map_values(|b: String| b@).update(i, binding_of(*keystroke)));
                },
                None => {},
            }
        }
        let mut r = self.end_recording();
        r.push(SettingsEffect::CheckKeybindingConflicts);
        r.push(SettingsEffect::Notify);
        r
    }

    /// Puts one keybinding back to its shipped binding (`default_binding`,
    /// `None` for a name that has none), in the draft only.
    pub fn reset_keybinding(&mut self, field: &str, default_binding: Option<String>) -> (r: Vec<SettingsEffect>)
        requires
            old(self).wf(),
        ensures
            final(self).wf(),
            match default_binding {
                None => *final(self) == *old(self) && r@.len() == 0,
                Some(b) => {
                    &&& *final(self) == (SettingsPanel {
                        config: SettingsDraft { keybindings: final(self).config.keybindings, ..old(self).config },
                        ..*old(self)
                    })
                    &&& final(self).config.keybindings.bindings@ == match keybinding_index(field@) {
                        Some(i) => old(self).config.keybindings.bindings@.update(i, b),
                        None => old(self).config.keybindings.bindings@,
                    }
                    &&& r@ == seq![SettingsEffect::CheckKeybindingConflicts, SettingsEffect::Notify]
                },
            },
    {
        match default_binding {
            None => Vec::new(),
            Some(b) => {
                set_keybinding_field(&mut self.config.keybindings, field, b);
                let mut r = Vec::new();
                r.push(SettingsEffect::CheckKeybindingConflicts);
                r.push(SettingsEffect::Notify);
                r
            },
        }
    }

    /// Puts every keybinding back to the shipped ones (`defaults`), ending
    /// key recording first.
    pub fn reset_all_keybindings(&mut self, defaults: KeybindingConfig) -> (r: Vec<SettingsEffect>)
        requires
            old(self).wf(),
            defaults.wf(),
        ensures
            final(self).wf(),
            *final(self) == (SettingsPanel {
                recording_key: None,
                config: SettingsDraft { keybindings: defaults, ..old(self).config },
                ..*old(self)
            }),
            r@ == end_recording_effects(old(self).recording_key) + seq![
                SettingsEffect::CheckKeybindingConflicts,
                SettingsEffect::Notify,
            ],
    {
        let mut r = self.end_recording();
        self.config.keybindings = defaults;
        r.push(SettingsEffect::CheckKeybindingConflicts);
        r.push(SettingsEffect::Notify);
        r
    }

    /// The binding of the keybinding named `field` in the draft (empty for
    /// an unknown name).
    pub fn binding_value(&self, field: &str) -> (r: &str)
        requires
            self.wf(),
        ensures
            r@ == match keybinding_index(field@) {
                Some(i) => self.config.keybindings.bindings@[i]@,
                None => Seq::empty(),
            },
    {
        proof {
            reveal_strlit("");
            crate::keybindings::lemma_field_index_bounds(crate::keybindings::keybinding_field_names(), field@, 0);
        }
        match keybinding_field(&self.config.keybindings, field) {
            Some(b) => b,
            None => "",
        }
    }

    /// Sets whether terminal text is restored, in the draft only (a Save
    /// writes it); the snapshot is taken first if there is none.
    pub fn set_restore_terminal_text(&mut self, enabled: bool) -> (r: Vec<SettingsEffect>)
        ensures
            keeps_errors(*old(self), *final(self)),
            final(self).config == (SettingsDraft { restore_terminal_text: enabled, ..old(self).config }),
            (final(self).config.restore_terminal_text, match final(self).preview_snapshot {
                Some(s) => Some(s.restore_terminal_text),
                None => None,
            }) == draft_restore_flags(*old(self), enabled),
            old(self).preview_snapshot is Some ==> final(self).preview_snapshot == old(self).preview_snapshot,
            old(self).preview_snapshot is None ==> (final(self).preview_snapshot matches Some(s) && draft_copy(old(self).config, s)),
            final(self).visible == old(self).visible && final(self).standalone == old(self).standalone,
            final(self).close_confirmation_visible == old(self).close_confirmation_visible,
            final(self).recording_key == old(self).recording_key,
            r@ == seq![SettingsEffect::Notify],
    {
        if self.preview_snapshot.is_none() {
            self.preview_snapshot = Some(clone_draft(&self.config));
        }
        self.config.restore_terminal_text = enabled;
        let mut r = Vec::new();
        r.push(SettingsEffect::Notify);
        r
    }

    /// Sets whether terminal text is restored when the value is already
    /// saved: the draft and the snapshot both take it, so a revert keeps it.
    pub fn set_persisted_restore_terminal_text(&mut self, enabled: bool) -> (r: Vec<SettingsEffect>)
        ensures
            keeps_errors(*old(self), *final(self)),
            final(self).config == (SettingsDraft { restore_terminal_text: enabled, ..old(self).config }),
            (final(self).config.restore_terminal_text, match final(self).preview_snapshot {
                Some(s) => Some(s.restore_terminal_text),
                None => None,
            }) == persisted_restore_flags(*old(self), enabled),
            old(self).preview_snapshot matches Some(s) ==> final(self).preview_snapshot == Some(
                SettingsDraft { restore_terminal_text: enabled, ..s },
            ),
            old(self).preview_snapshot is None ==> (final(self).preview_snapshot matches Some(s) && draft_copy(final(self).config, s)),
            final(self).visible == old(self).visible && final(self).standalone == old(self).standalone,
            final(self).close_confirmation_visible == old(self).close_confirmation_visible,
            final(self).recording_key == old(self).recording_key,
            r@ == seq![SettingsEffect::Notify],
    {
        self.config.restore_terminal_text = enabled;
        match &mut self.preview_snapshot {
            Some(snapshot) => {
                snapshot.restore_terminal_text = enabled;
            },
            None => {
                self.preview_snapshot = Some(clone_draft(&self.config));
            },
        }
        let mut r = Vec::new();
        r.push(SettingsEffect::Notify);
        r
    }

    /// The settings being edited.
    pub fn config(&self) -> (r: &SettingsDraft<C>)
        ensures
            *r == self.config,
    {
        &self.config
    }
}

} // verus!
