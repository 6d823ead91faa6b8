//! Assigning keys from the sheet of shortcuts.

use vstd::prelude::*;
use vstd::string::*;
use crate::text::same_text;
use crate::workspace::{Effect, Keystroke, Model, Workspace};

verus! {

/// An action, and the keys that run it in a context.
pub struct ActionBinding {
    pub context: String,
    pub action: String,
    pub keys: Vec<String>,
    /// The user has changed the keys.
    pub customized: bool,
}

/// A row of the sheet.
pub struct BindingSite {
    pub context: String,
    pub action: String,
}

/// A key that another action uses, while the user is asked whether to take it over.
pub struct PendingRebind {
    pub context: String,
    pub action: String,
    pub keystroke: String,
    pub taken: Vec<BindingSite>,
}

/// The sheet of shortcuts while it is open.
pub struct KeymapEditing {
    /// The user's keymap file; `None` where it is not known where that is.
    pub path: Option<String>,
    pub rows: Vec<ActionBinding>,
    /// Why the file could not be read.
    pub unreadable: Option<String>,
    /// The row that waits for a key.
    pub capturing: Option<BindingSite>,
    pub pending: Option<PendingRebind>,
}

/// A change of the user's keymap.
pub enum KeymapEdit {
    Rebind { context: String, action: String, keystroke: String },
    Reset { context: String, action: String },
}

/// What was read of the user's keymap, with the rows that follow from it.
pub enum KeymapFile {
    /// There is none.
    Missing { rows: Vec<ActionBinding> },
    /// It cannot be read, or makes no sense.
    Broken { error: String, rows: Vec<ActionBinding> },
    Read { rows: Vec<ActionBinding> },
}

/// The name of a key that only modifies others.
pub open spec fn modifier_key(key: Seq<char>) -> bool {
    ||| key == "shift"@
    ||| key == "control"@
    ||| key == "ctrl"@
    ||| key == "alt"@
    ||| key == "option"@
    ||| key == "platform"@
    ||| key == "cmd"@
    ||| key == "command"@
    ||| key == "super"@
    ||| key == "win"@
    ||| key == "function"@
    ||| key == "fn"@
}

/// A key that can be assigned.
pub open spec fn assignable(key: Seq<char>) -> bool {
    key.len() > 0 && !modifier_key(key)
}

impl Keystroke {
    /// Some modifier is held.
    pub open spec fn modified(self) -> bool {
        self.shift || self.alt || self.control || self.platform || self.function
    }
}

/// How a key is written in a keymap, given how it would be; `None` for a key that only modifies
/// others.
pub fn keystroke_text(keystroke: &Keystroke, written: String) -> (r: Option<String>)
    ensures
        r == if assignable(keystroke.key@) { Some(written) } else { None::<String> },
{
    let key = keystroke.key.as_str();
    if key.is_empty() || same_text(key, "shift") || same_text(key, "control") || same_text(key, "ctrl")
        || same_text(key, "alt") || same_text(key, "option") || same_text(key, "platform") || same_text(
        key,
        "cmd",
    ) || same_text(key, "command") || same_text(key, "super") || same_text(key, "win") || same_text(
        key,
        "function",
    ) || same_text(key, "fn") {
        None
    } else {
        Some(written)
    }
}

impl KeymapEditing {
    /// The sheet, with what was read of the user's keymap. One that cannot be read is never written.
    pub fn load(path: Option<String>, file: KeymapFile) -> (editing: KeymapEditing)
        ensures
            editing == match file {
                KeymapFile::Missing { rows } => (KeymapEditing {
                    path,
                    rows,
                    unreadable: None,
                    capturing: None,
                    pending: None,
                }),
                KeymapFile::Read { rows } => (KeymapEditing {
                    path,
                    rows,
                    unreadable: None,
                    capturing: None,
                    pending: None,
                }),
                KeymapFile::Broken { error, rows } => (KeymapEditing {
                    path,
                    rows,
                    unreadable: Some(error),
                    capturing: None,
                    pending: None,
                }),
            },
    {
        let (rows, unreadable) = match file {
            KeymapFile::Missing { rows } => (rows, None),
            KeymapFile::Read { rows } => (rows, None),
            KeymapFile::Broken { error, rows } => (rows, Some(error)),
        };
        KeymapEditing { path, rows, unreadable, capturing: None, pending: None }
    }

    /// The user's keymap may be written.
    pub open spec fn writable(self) -> bool {
        self.path is Some && self.unreadable is None
    }
}

impl Model {
    pub open spec fn with_keymap(self, editing: KeymapEditing) -> Model {
        Model { keymap_editing: Some(editing), ..self }
    }

    /// A change of the user's keymap is written, where that is possible.
    pub open spec fn keymap_edited(self, edit: KeymapEdit) -> Model {
        match self.keymap_editing {
            Some(editing) => if editing.writable() {
                self.then_do(Effect::WriteKeymap { path: editing.path->0, edit })
            } else {
                self
            },
            None => self,
        }
    }

    /// No row waits for a key.
    pub open spec fn capture_cancelled(self) -> Model {
        match self.keymap_editing {
            Some(editing) => self.with_keymap(
                KeymapEditing { capturing: None, ..editing },
            ).then_do(Effect::ReleaseKeys),
            None => self,
        }
    }

    /// A key came while a row waited for one.
    pub open spec fn key_captured(self, keystroke: Keystroke, written: String, taken: Vec<BindingSite>) -> Model {
        if self.keymap_editing is None || self.keymap_editing->0.capturing is None {
            self
        } else if keystroke.key@ == "escape"@ && !keystroke.modified() {
            self.capture_cancelled()
        } else if !assignable(keystroke.key@) {
            self
        } else {
            let site = self.keymap_editing->0.capturing->0;
            let m = self.capture_cancelled();
            if taken@.len() == 0 {
                m.keymap_edited(
                    KeymapEdit::Rebind { context: site.context, action: site.action, keystroke: written },
                )
            } else {
                m.with_keymap(
                    KeymapEditing {
                        pending: Some(
                            PendingRebind {
                                context: site.context,
                                action: site.action,
                                keystroke: written,
                                taken,
                            },
                        ),
                        ..m.keymap_editing->0
                    },
                )
            }
        }
    }
}

impl Workspace {
    /// The rows of the sheet; `defaults` while it is not open.
    pub fn keymap_rows<'a>(&'a self, defaults: &'a Vec<ActionBinding>) -> (rows: &'a Vec<ActionBinding>)
        ensures
            *rows == match self@.keymap_editing {
                Some(editing) => editing.rows,
                None => *defaults,
            },
    {
        match &self.keymap_editing {
            Some(editing) => &editing.rows,
            None => defaults,
        }
    }

    /// A row was clicked: it waits for a key, if the user's keymap can be written.
    pub fn start_key_capture(&mut self, context: String, action: String)
        ensures
            final(self)@ == match old(self)@.keymap_editing {
                Some(editing) => if editing.writable() {
                    old(self)@.with_keymap(
                        KeymapEditing {
                            pending: None,
                            capturing: Some(BindingSite { context, action }),
                            ..editing
                        },
                    ).then_do(Effect::InterceptKeys)
                } else {
                    old(self)@
                },
                None => old(self)@,
            },
    {
        let Some(mut editing) = self.keymap_editing.take() else {
            return;
        };
        if editing.unreadable.is_some() || editing.path.is_none() {
            self.keymap_editing = Some(editing);
            return;
        }
        editing.pending = None;
        editing.capturing = Some(BindingSite { context, action });
        self.keymap_editing = Some(editing);
        self.effect(Effect::InterceptKeys);
    }

    /// The row waits no more.
    pub fn cancel_key_capture(&mut self)
        ensures
            final(self)@ == old(self)@.capture_cancelled(),
    {
        if let Some(mut editing) = self.keymap_editing.take() {
            editing.capturing = None;
            self.keymap_editing = Some(editing);
            self.effect(Effect::ReleaseKeys);
        }
    }

    /// A key came while a row waits for one: it is assigned where it is free, else the user is
    /// asked. `written` is how a keymap writes the key, `taken` are the rows that use it.
    pub fn capture_keystroke(&mut self, keystroke: &Keystroke, written: String, taken: Vec<BindingSite>)
        ensures
            final(self)@ == old(self)@.key_captured(*keystroke, written, taken),
    {
        let site = match &self.keymap_editing {
            Some(editing) => match &editing.capturing {
                Some(site) => BindingSite { context: site.context.clone(), action: site.action.clone() },
                None => {
                    return;
                },
            },
            None => {
                return;
            },
        };
        let modified = keystroke.shift || keystroke.alt || keystroke.control || keystroke.platform
            || keystroke.function;
        if same_text(keystroke.key.as_str(), "escape") && !modified {
            self.cancel_key_capture();
            return;
        }
        let Some(written) = keystroke_text(keystroke, written) else {
            return;
        };
        self.cancel_key_capture();
        let BindingSite { context, action } = site;
        if taken.len() == 0 {
            self.apply_rebind(context, action, written);
        } else if let Some(mut editing) = self.keymap_editing.take() {
            editing.pending = Some(PendingRebind { context, action, keystroke: written, taken });
            self.keymap_editing = Some(editing);
        }
    }

    /// Whether to take the key over from the actions that use it.
    pub fn answer_pending_rebind(&mut self, replace: bool)
        ensures
            final(self)@ == match old(self)@.keymap_editing {
                Some(editing) => match editing.pending {
                    Some(pending) => {
                        let m = old(self)@.with_keymap(KeymapEditing { pending: None, ..editing });
                        if replace {
                            m.keymap_edited(
                                KeymapEdit::Rebind {
                                    context: pending.context,
                                    action: pending.action,
                                    keystroke: pending.keystroke,
                                },
                            )
                        } else {
                            m
                        }
                    },
                    None => old(self)@,
                },
                None => old(self)@,
            },
    {
        let Some(mut editing) = self.keymap_editing.take() else {
            return;
        };
        let pending = editing.pending.take();
        self.keymap_editing = Some(editing);
        if let Some(pending) = pending {
            if replace {
                self.apply_rebind(pending.context, pending.action, pending.keystroke);
            }
        }
    }

    fn apply_rebind(&mut self, context: String, action: String, keystroke: String)
        ensures
            final(self)@ == old(self)@.keymap_edited(KeymapEdit::Rebind { context, action, keystroke }),
    {
        self.edit_user_keymap(KeymapEdit::Rebind { context, action, keystroke });
    }

    /// A row gets the keys back that it has by default.
    pub fn reset_key_binding(&mut self, context: String, action: String)
        ensures
            final(self)@ == old(self)@.keymap_edited(KeymapEdit::Reset { context, action }),
    {
        self.edit_user_keymap(KeymapEdit::Reset { context, action });
    }

    /// Writes a change of the user's keymap, unless that could not be read or has no place.
    pub fn edit_user_keymap(&mut self, edit: KeymapEdit)
        ensures
            final(self)@ == old(self)@.keymap_edited(edit),
    {
        let path = match &self.keymap_editing {
            Some(editing) => match (&editing.path, &editing.unreadable) {
                (Some(path), None) => path.clone(),
                _ => {
                    return;
                },
            },
            None => {
                return;
            },
        };
        self.effect(Effect::WriteKeymap { path, edit });
    }

    /// The change was written, with the rows that follow from it; or it was not, and everything
    /// stays as it was.
    pub fn user_keymap_written(&mut self, path: String, result: Result<Vec<ActionBinding>, String>)
        ensures
            final(self)@ == match old(self)@.keymap_editing {
                Some(editing) => match result {
                    Ok(rows) => old(self)@.with_keymap(KeymapEditing { rows, ..editing }),
                    Err(error) => old(self)@.then_do(Effect::KeymapWriteFailed { path, error }),
                },
                None => old(self)@,
            },
    {
        let Some(mut editing) = self.keymap_editing.take() else {
            return;
        };
        match result {
            Ok(rows) => {
                editing.rows = rows;
                self.keymap_editing = Some(editing);
            },
            Err(error) => {
                self.keymap_editing = Some(editing);
                self.effect(Effect::KeymapWriteFailed { path, error });
            },
        }
    }

    /// Opens the user's keymap in a tab; one that is not there is made first.
    pub fn open_user_keymap(&mut self)
        ensures
            final(self)@ == match old(self)@.keymap_editing {
                Some(editing) => match editing.path {
                    Some(path) => old(self)@.then_do(Effect::EnsureKeymapFile { path }),
                    None => old(self)@,
                },
                None => old(self)@,
            },
    {
        let path = match &self.keymap_editing {
            Some(editing) => match &editing.path {
                Some(path) => path.clone(),
                None => {
                    return;
                },
            },
            None => {
                return;
            },
        };
        self.effect(Effect::EnsureKeymapFile { path });
    }

    /// The user's keymap is there: closes the sheet and opens it; or it could not be made.
    pub fn user_keymap_ready(&mut self, path: String, result: Result<(), String>)
        ensures
            final(self)@ == match result {
                Ok(_) => (Model { keymap_editing: None, ..old(self)@ }).then_do(
                    Effect::CloseShortcutSheet,
                ).then_do(Effect::OpenFile(path)),
                Err(error) => old(self)@.then_do(Effect::KeymapWriteFailed { path, error }),
            },
    {
        match result {
            Ok(_) => {
                self.keymap_editing = None;
                self.effect(Effect::CloseShortcutSheet);
                self.effect(Effect::OpenFile(path));
            },
            Err(error) => {
                self.effect(Effect::KeymapWriteFailed { path, error });
            },
        }
    }
}

/// A keymap that could not be read is never written.
pub proof fn broken_keymaps_are_not_written(m: Model, edit: KeymapEdit)
    requires
        m.keymap_editing is Some,
        m.keymap_editing->0.unreadable is Some,
    ensures
        m.keymap_edited(edit) == m,
{
}

/// A key that another action uses is never taken over without asking: nothing is written before
/// the answer.
pub proof fn taken_keys_are_asked_for(m: Model, keystroke: Keystroke, written: String, taken: Vec<BindingSite>, i: int)
    requires
        taken@.len() > 0,
        m.effects.len() <= i < m.key_captured(keystroke, written, taken).effects.len(),
    ensures
        !(m.key_captured(keystroke, written, taken).effects[i] is WriteKeymap),
{
}

/// A key that only modifies others is never assigned, whatever waits for a key.
pub proof fn modifiers_alone_are_not_assigned(m: Model, keystroke: Keystroke, written: String, taken: Vec<BindingSite>)
    requires
        keystroke.key@.len() == 0 || seq![
            "shift"@,
            "control"@,
            "ctrl"@,
            "alt"@,
            "option"@,
            "platform"@,
            "cmd"@,
            "command"@,
            "super"@,
            "win"@,
            "function"@,
            "fn"@,
        ].contains(keystroke.key@),
        keystroke.key@ != "escape"@,
    ensures
        m.key_captured(keystroke, written, taken) == m,
{
    let names = seq![
        "shift"@,
        "control"@,
        "ctrl"@,
        "alt"@,
        "option"@,
        "platform"@,
        "cmd"@,
        "command"@,
        "super"@,
        "win"@,
        "function"@,
        "fn"@,
    ];
    if keystroke.key@.len() > 0 {
        let i = choose|i: int| 0 <= i < names.len() && names[i] == keystroke.key@;
        assert(modifier_key(names[i]));
    }
}

/// Any other key is assigned to the row that waits, where no row uses it, and asked for where one does;
/// either way the row waits no more. Escape alone ends the waiting without assigning anything.
pub proof fn keys_go_to_the_row_that_waits(m: Model, keystroke: Keystroke, written: String, taken: Vec<BindingSite>)
    requires
        m.keymap_editing is Some,
        m.keymap_editing->0.capturing is Some,
        m.keymap_editing->0.path is Some,
        m.keymap_editing->0.unreadable is None,
        keystroke.key@.len() > 0,
        !seq![
            "shift"@,
            "control"@,
            "ctrl"@,
            "alt"@,
            "option"@,
            "platform"@,
            "cmd"@,
            "command"@,
            "super"@,
            "win"@,
            "function"@,
            "fn"@,
        ].contains(keystroke.key@),
    ensures
        ({
            let was = m.keymap_editing->0;
            let site = was.capturing->0;
            let after = m.key_captured(keystroke, written, taken);
            let now = after.keymap_editing->0;
            let n = m.effects.len() as int;
            let held = keystroke.shift || keystroke.alt || keystroke.control || keystroke.platform
                || keystroke.function;
            let escape = keystroke.key@ == "escape"@ && !held;
            &&& after.keymap_editing is Some && now.capturing is None
            &&& now.rows == was.rows && now.path == was.path && now.unreadable == was.unreadable
            &&& after.effects[n] is ReleaseKeys && after.effects.take(n) == m.effects
            &&& escape ==> after.effects.len() == n + 1 && now.pending == was.pending
            &&& !escape && taken@.len() == 0 ==> {
                &&& after.effects.len() == n + 2 && now.pending == was.pending
                &&& after.effects[n + 1] == (Effect::WriteKeymap {
                    path: was.path->0,
                    edit: KeymapEdit::Rebind { context: site.context, action: site.action, keystroke: written },
                })
            }
            &&& !escape && taken@.len() > 0 ==> {
                &&& after.effects.len() == n + 1
                &&& now.pending == Some(
                    PendingRebind { context: site.context, action: site.action, keystroke: written, taken },
                )
            }
        }),
{
    let names = seq![
        "shift"@,
        "control"@,
        "ctrl"@,
        "alt"@,
        "option"@,
        "platform"@,
        "cmd"@,
        "command"@,
        "super"@,
        "win"@,
        "function"@,
        "fn"@,
    ];
    let key = keystroke.key@;
    assert(names[0] != key && names[1] != key && names[2] != key && names[3] != key);
    assert(names[4] != key && names[5] != key && names[6] != key && names[7] != key);
    assert(names[8] != key && names[9] != key && names[10] != key && names[11] != key);
    assert(!modifier_key(key));
    let after = m.key_captured(keystroke, written, taken);
    assert(after.effects.take(m.effects.len() as int) =~= m.effects);
}

/// Without a row that waits, a key changes nothing.
pub proof fn keys_without_a_row_change_nothing(m: Model, keystroke: Keystroke, written: String, taken: Vec<BindingSite>)
    requires
        m.keymap_editing is None || m.keymap_editing->0.capturing is None,
    ensures
        m.key_captured(keystroke, written, taken) == m,
{
}

/// A change is written to the user's own file, exactly as it was asked for, and nowhere else.
pub proof fn changes_go_to_the_users_file(m: Model, edit: KeymapEdit)
    requires
        m.keymap_editing is Some,
    ensures
        m.keymap_editing->0.path is Some && m.keymap_editing->0.unreadable is None ==> m.keymap_edited(edit).effects
            == m.effects.push(Effect::WriteKeymap { path: m.keymap_editing->0.path->0, edit }),
        m.keymap_editing->0.path is None ==> m.keymap_edited(edit) == m,
        m.keymap_edited(edit).keymap_editing == m.keymap_editing,
{
}

/// A row that waits no more gives the keys back, and nothing else of the sheet changes; without the sheet
/// nothing happens.
pub proof fn cancelling_gives_the_keys_back(m: Model)
    ensures
        m.keymap_editing is None ==> m.capture_cancelled() == m,
        m.keymap_editing matches Some(editing) ==> {
            let after = m.capture_cancelled();
            &&& after.keymap_editing == Some(KeymapEditing { capturing: None, ..editing })
            &&& after.effects == m.effects.push(Effect::ReleaseKeys)
        },
{
}

} // verus!
