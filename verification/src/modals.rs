//! What the editor's dialogs decide: the replay settings read from their
//! inputs, the reaction that gets added, and the forms for inserting a message,
//! starting a chat and editing a group.

use vstd::prelude::*;
use vstd::string::*;
use crate::roster::{
    Contact, Operator, clone_ids, contains_id, find_operator, ids_view,
    operator_with_id, operators_view, toggle_id, toggled,
};
use crate::text::{
    all_white_space, decimal, lemma_trimmed_empty_iff_blank, parse_u64, parsed_u64, push_decimal,
    trim, trimmed,
};

verus! {

/// The width, in pixels, of a dialog's content when none is given.
pub const DEFAULT_MODAL_WIDTH: u32 = 340;

/// The style class of a dialog's content: full width up to `max_width`
/// pixels, or up to 340 pixels when no width is given, centred.
pub open spec fn modal_content_style_text(max_width: Option<u32>) -> Seq<char> {
    let w: nat = match max_width {
        Some(w) => w as nat,
        None => 340,
    };
    "w-full max-w-["@ + decimal(w) + "px] mx-auto"@
}

/// The style class of a dialog's content.
pub fn modal_content_style(max_width: Option<u32>) -> (r: String)
    ensures
        r@ == modal_content_style_text(max_width),
{
    let w: u32 = match max_width {
        Some(w) => w,
        None => DEFAULT_MODAL_WIDTH,
    };
    let mut r = String::from_str("w-full max-w-[");
    push_decimal(&mut r, w as u64);
    r.append("px] mx-auto");
    r
}

/// The class of one of two mutually exclusive choice buttons (fixed or
/// per-character interval, own side or other side): filled when chosen.
pub fn choice_button_class(selected: bool) -> (r: &'static str)
    ensures
        selected ==> r@ == "bg-[#fdfc00] text-black"@,
        !selected ==> r@ == "bg-[#fdfc00]/0 text-black"@,
{
    if selected {
        "bg-[#fdfc00] text-black"
    } else {
        "bg-[#fdfc00]/0 text-black"
    }
}

/// How long a replay waits before showing each message.
#[derive(Clone, Copy, Debug, PartialEq, Eq, Structural)]
pub enum ReplayIntervalMode {
    /// The same interval before every message.
    Fixed,
    /// The message's character count times the interval per character;
    /// stickers and images still wait the fixed interval.
    PerChar,
}

/// The settings a replay runs with.
#[derive(Clone, Copy, Debug, PartialEq, Eq, Structural)]
pub struct ReplaySettings {
    pub mode: ReplayIntervalMode,
    /// The interval in fixed mode, in milliseconds.
    pub fixed_ms: u64,
    /// The interval per character in per-character mode, in milliseconds.
    pub per_char_ms: u64,
    /// The pause after a message is sent, in milliseconds.
    pub gap_ms: u64,
}

/// The fixed interval used when its input does not hold a number.
pub const DEFAULT_FIXED_MS: u64 = 800;

/// The per-character interval used when its input does not hold a number.
pub const DEFAULT_PER_CHAR_MS: u64 = 40;

/// The pause after a message used when its input does not hold a number.
pub const DEFAULT_GAP_MS: u64 = 200;

/// The number that an input holds, or `default` when it holds none.
pub open spec fn number_or(text: Seq<char>, default: u64) -> u64 {
    match parsed_u64(text) {
        Some(n) => n,
        None => default,
    }
}

/// The replay settings that the dialog's inputs describe: each input read as
/// an unsigned number, with its default where it does not hold one.
pub fn replay_settings_from_inputs(
    mode: ReplayIntervalMode,
    fixed_ms: &str,
    per_char_ms: &str,
    gap_ms: &str,
) -> (r: ReplaySettings)
    ensures
        r.mode == mode,
        r.fixed_ms == number_or(fixed_ms@, 800),
        r.per_char_ms == number_or(per_char_ms@, 40),
        r.gap_ms == number_or(gap_ms@, 200),
{
    ReplaySettings {
        mode,
        fixed_ms: parse_u64(fixed_ms).unwrap_or(DEFAULT_FIXED_MS),
        per_char_ms: parse_u64(per_char_ms).unwrap_or(DEFAULT_PER_CHAR_MS),
        gap_ms: parse_u64(gap_ms).unwrap_or(DEFAULT_GAP_MS),
    }
}

/// The reaction to add for what was typed: the text as typed, unless it is
/// blank, in which case nothing is added.
pub fn reaction_to_add(input: &String) -> (r: Option<String>)
    ensures
        r is Some <==> !all_white_space(input@),
        r matches Some(t) ==> t@ == input@,
{
    let t = trim(input.as_str());
    proof {
        lemma_trimmed_empty_iff_blank(input@);
    }
    if t.is_empty() {
        None
    } else {
        Some(input.clone())
    }
}

/// The choice in the dialog that picks who sent a message.
pub struct SenderPicker {
    pub selected: Option<String>,
}

impl SenderPicker {
    /// A picker with nobody chosen.
    pub fn new() -> (r: Self)
        ensures
            r.selected is None,
    {
        SenderPicker { selected: None }
    }

    /// Chooses the operator `id`.
    pub fn select(&mut self, id: String)
        ensures
            final(self).selected matches Some(s) && s@ == id@,
    {
        self.selected = Some(id);
    }

    /// Whether the operator `id` is the one chosen.
    pub fn is_selected(&self, id: &str) -> (r: bool)
        ensures
            r == (self.selected matches Some(s) && s@ == id@),
    {
        match &self.selected {
            Some(s) => crate::text::str_eq(s.as_str(), id),
            None => false,
        }
    }

    /// The sender to report when the dialog is confirmed; the dialog closes
    /// whether or not someone was chosen.
    pub fn confirm(&self) -> (r: Option<String>)
        ensures
            r is Some <==> self.selected is Some,
            r matches Some(s) ==> self.selected matches Some(t) && s@ == t@,
    {
        match &self.selected {
            Some(s) => Some(s.clone()),
            None => None,
        }
    }
}

/// The state of the dialog that inserts a message before another one.
pub struct InsertMessageForm {
    /// The text typed so far.
    pub content: String,
    /// Whether the message is the user's own (otherwise another party's).
    pub is_self: bool,
    /// Whether the sender picker is open (a group chat, another party's message).
    pub picking_sender: bool,
}

/// What the user did in the insert-message dialog.
pub enum InsertMessageEvent {
    /// The text field now holds this text.
    Edit(String),
    /// The "own message" button.
    ChooseSelf,
    /// The "other party" button.
    ChooseOther,
    /// The confirm button.
    Confirm,
    /// The sender picker was confirmed with this operator.
    SenderPicked(String),
    /// The sender picker was closed without a choice.
    PickerClosed,
    /// The dialog's close button, its cancel button, or a click outside it.
    CloseRequested,
}

/// What the dialog asks its owner to do.
pub enum InsertMessageAction {
    /// Nothing.
    Nothing,
    /// Insert this message; `sender` is `None` for the user's own message.
    Save { content: String, sender: Option<String> },
    /// Close the dialog.
    Close,
}

impl InsertMessageForm {
    /// An empty dialog, set to the user's own message.
    pub fn new() -> (r: Self)
        ensures
            r.content@.len() == 0,
            r.is_self,
            !r.picking_sender,
    {
        InsertMessageForm { content: String::new(), is_self: true, picking_sender: false }
    }
}

/// The two forms agree on whose message it is and on whether the picker is open.
pub open spec fn same_flags(a: &InsertMessageForm, b: &InsertMessageForm) -> bool {
    a.is_self == b.is_self && a.picking_sender == b.picking_sender
}

/// One step of the insert-message dialog: the form after `event`, and what
/// the owner is asked to do. `members` are the conversation's operators.
pub fn insert_message_step(
    form: InsertMessageForm,
    members: &Vec<Operator>,
    event: InsertMessageEvent,
) -> (r: (InsertMessageForm, InsertMessageAction))
    ensures
        match event {
            InsertMessageEvent::Edit(t) => {
                &&& r.0.content@ == t@
                &&& same_flags(&r.0, &form)
                &&& r.1 is Nothing
            },
            InsertMessageEvent::ChooseSelf => {
                &&& r.0.content@ == form.content@ && r.0.is_self
                &&& r.0.picking_sender == form.picking_sender
                &&& r.1 is Nothing
            },
            InsertMessageEvent::ChooseOther => {
                &&& r.0.content@ == form.content@ && !r.0.is_self
                &&& r.0.picking_sender == form.picking_sender
                &&& r.1 is Nothing
            },
            InsertMessageEvent::Confirm => {
                &&& r.0.content@ == form.content@ && r.0.is_self == form.is_self
                &&& if trimmed(form.content@).len() == 0 {
                    r.0.picking_sender == form.picking_sender && r.1 is Nothing
                } else if form.is_self {
                    &&& r.0.picking_sender == form.picking_sender
                    &&& r.1 matches InsertMessageAction::Save { content, sender }
                    &&& content@ == form.content@ && sender is None
                } else if members@.len() > 1 {
                    r.0.picking_sender && r.1 is Nothing
                } else {
                    &&& r.0.picking_sender == form.picking_sender
                    &&& r.1 matches InsertMessageAction::Save { content, sender }
                    &&& content@ == form.content@
                    &&& if members@.len() == 0 {
                        sender is None
                    } else {
                        sender matches Some(s) && s@ == members@[0].id@
                    }
                }
            },
            InsertMessageEvent::SenderPicked(id) => {
                &&& r.0.content@ == form.content@ && r.0.is_self == form.is_self
                &&& !r.0.picking_sender
                &&& if trimmed(form.content@).len() == 0 {
                    r.1 is Nothing
                } else {
                    &&& r.1 matches InsertMessageAction::Save { content, sender }
                    &&& content@ == form.content@
                    &&& sender matches Some(s) && s@ == id@
                }
            },
            InsertMessageEvent::PickerClosed => {
                &&& r.0.content@ == form.content@ && r.0.is_self == form.is_self
                &&& !r.0.picking_sender
                &&& r.1 is Nothing
            },
            InsertMessageEvent::CloseRequested => {
                &&& r.0.content@ == form.content@ && same_flags(&r.0, &form)
                &&& if form.picking_sender {
                    r.1 is Nothing
                } else {
                    r.1 is Close
                }
            },
        },
        r.1 matches InsertMessageAction::Save { content, sender } ==> trimmed(content@).len() > 0,
{
    let mut form = form;
    match event {
        InsertMessageEvent::Edit(t) => {
            form.content = t;
            (form, InsertMessageAction::Nothing)
        },
        InsertMessageEvent::ChooseSelf => {
            form.is_self = true;
            (form, InsertMessageAction::Nothing)
        },
        InsertMessageEvent::ChooseOther => {
            form.is_self = false;
            (form, InsertMessageAction::Nothing)
        },
        InsertMessageEvent::Confirm => {
            if trim(form.content.as_str()).is_empty() {
                (form, InsertMessageAction::Nothing)
            } else if form.is_self {
                let content = form.content.clone();
                (form, InsertMessageAction::Save { content, sender: None })
            } else if members.len() > 1 {
                form.picking_sender = true;
                (form, InsertMessageAction::Nothing)
            } else {
                let sender = if members.len() == 0 {
                    None
                } else {
                    Some(members[0].id.clone())
                };
                let content = form.content.clone();
                (form, InsertMessageAction::Save { content, sender })
            }
        },
        InsertMessageEvent::SenderPicked(id) => {
            form.picking_sender = false;
            if trim(form.content.as_str()).is_empty() {
                (form, InsertMessageAction::Nothing)
            } else {
                let content = form.content.clone();
                (form, InsertMessageAction::Save { content, sender: Some(id) })
            }
        },
        InsertMessageEvent::PickerClosed => {
            form.picking_sender = false;
            (form, InsertMessageAction::Nothing)
        },
        InsertMessageEvent::CloseRequested => {
            if form.picking_sender {
                (form, InsertMessageAction::Nothing)
            } else {
                (form, InsertMessageAction::Close)
            }
        },
    }
}


/// What the new-chat dialog starts.
#[derive(Debug, PartialEq)]
pub enum NewChatSelection {
    /// A one-to-one chat with this operator.
    Single(Operator),
    /// A group chat.
    Group {
        /// The group's name.
        name: String,
        /// The group's avatar.
        avatar_url: String,
        /// The members, not counting the user.
        member_ids: Vec<String>,
    },
}

/// Why a dialog refused to confirm.
#[derive(Clone, Copy, Debug, PartialEq, Eq, Structural)]
pub enum FormError {
    /// A group needs a name that is not blank.
    GroupNameRequired,
}

/// The state of the dialog that starts a new chat.
pub struct NewChatForm {
    /// The ticked operators, in the order they were ticked.
    pub selected_ids: Vec<String>,
    /// The group name typed so far (used when more than one operator is ticked).
    pub group_name: String,
    /// The group avatar chosen so far.
    pub group_avatar: String,
    /// The error shown under the group fields.
    pub error: Option<FormError>,
}

impl NewChatForm {
    /// An empty dialog.
    pub fn new() -> (r: Self)
        ensures
            r.selected_ids@.len() == 0,
            r.group_name@.len() == 0,
            r.group_avatar@.len() == 0,
            r.error is None,
    {
        NewChatForm {
            selected_ids: Vec::new(),
            group_name: String::new(),
            group_avatar: String::new(),
            error: None,
        }
    }

    /// A click on an operator's row: ticks or unticks it and clears the error.
    pub fn toggle(&mut self, id: &str)
        ensures
            ids_view(final(self).selected_ids@) == toggled(ids_view(old(self).selected_ids@), id@),
            final(self).group_name == old(self).group_name,
            final(self).group_avatar == old(self).group_avatar,
            final(self).error is None,
    {
        self.error = None;
        toggle_id(&mut self.selected_ids, id);
    }

    /// Whether the operator `id` is ticked.
    pub fn is_selected(&self, id: &str) -> (r: bool)
        ensures
            r == ids_view(self.selected_ids@).contains(id@),
    {
        contains_id(&self.selected_ids, id)
    }

    /// The group name field now holds `name`; the error is cleared.
    pub fn set_group_name(&mut self, name: String)
        ensures
            final(self).group_name == name,
            final(self).selected_ids == old(self).selected_ids,
            final(self).group_avatar == old(self).group_avatar,
            final(self).error is None,
    {
        self.group_name = name;
        self.error = None;
    }

    /// The group avatar was loaded.
    pub fn set_group_avatar(&mut self, url: String)
        ensures
            final(self).group_avatar == url,
            final(self).selected_ids == old(self).selected_ids,
            final(self).group_name == old(self).group_name,
            final(self).error == old(self).error,
    {
        self.group_avatar = url;
    }

    /// The confirm button. With one operator ticked, the chat with that
    /// operator starts (when the roster still has it); with more, a group
    /// starts under the trimmed name, or, when that is blank, the error is set
    /// and nothing starts; with none, nothing happens. When a chat starts the
    /// dialog closes.
    pub fn confirm(&mut self, operators: &Vec<Operator>) -> (r: Option<NewChatSelection>)
        ensures
            final(self).selected_ids == old(self).selected_ids,
            final(self).group_name == old(self).group_name,
            final(self).group_avatar == old(self).group_avatar,
            ({
                let ids = ids_view(old(self).selected_ids@);
                if ids.len() == 1 {
                    &&& final(self).error == old(self).error
                    &&& match operator_with_id(operators_view(operators@), ids[0]) {
                        Some(v) => r matches Some(NewChatSelection::Single(op)) && op@ == v,
                        None => r is None,
                    }
                } else if ids.len() > 1 {
                    if trimmed(old(self).group_name@).len() == 0 {
                        r is None && final(self).error == Some(FormError::GroupNameRequired)
                    } else {
                        &&& final(self).error == old(self).error
                        &&& r matches Some(NewChatSelection::Group { name, avatar_url, member_ids })
                        &&& name@ == trimmed(old(self).group_name@)
                        &&& avatar_url@ == old(self).group_avatar@
                        &&& ids_view(member_ids@) == ids
                    }
                } else {
                    r is None && final(self).error == old(self).error
                }
            }),
    {
        let n = self.selected_ids.len();
        assert(ids_view(self.selected_ids@).len() == n);
        if n == 1 {
            assert(ids_view(self.selected_ids@)[0] == self.selected_ids@[0]@);
            match find_operator(operators, self.selected_ids[0].as_str()) {
                Some(op) => Some(NewChatSelection::Single(op)),
                None => None,
            }
        } else if n > 1 {
            let name = trim(self.group_name.as_str());
            if name.is_empty() {
                self.error = Some(FormError::GroupNameRequired);
                None
            } else {
                Some(
                    NewChatSelection::Group {
                        name: name.to_owned(),
                        avatar_url: self.group_avatar.clone(),
                        member_ids: clone_ids(&self.selected_ids),
                    },
                )
            }
        } else {
            None
        }
    }
}

/// The members, name and avatar that the group settings dialog saves.
#[derive(Debug, PartialEq)]
pub struct OpsSelection {
    pub ops: Vec<String>,
    pub name: String,
    pub avatar_url: String,
}

/// The state of the dialog that edits a group chat.
pub struct GroupSettingsForm {
    /// The ticked members, in the order they were ticked.
    pub member_ids: Vec<String>,
    /// The name typed so far.
    pub name: String,
    /// The avatar chosen so far; empty when there is none.
    pub avatar_url: String,
    /// The error shown under the name field.
    pub error: Option<FormError>,
}

impl GroupSettingsForm {
    /// The dialog as it opens for a conversation: its members, name and avatar.
    pub fn for_contact(contact: &Contact) -> (r: Self)
        ensures
            ids_view(r.member_ids@) == contact@.participant_ids,
            r.name@ == contact.name@,
            r.avatar_url@ == contact.avatar_url@,
            r.error is None,
    {
        GroupSettingsForm {
            member_ids: clone_ids(&contact.participant_ids),
            name: contact.name.clone(),
            avatar_url: contact.avatar_url.clone(),
            error: None,
        }
    }

    /// A click on an operator's row: adds it to the members or removes it.
    pub fn toggle(&mut self, id: &str)
        ensures
            ids_view(final(self).member_ids@) == toggled(ids_view(old(self).member_ids@), id@),
            final(self).name == old(self).name,
            final(self).avatar_url == old(self).avatar_url,
            final(self).error == old(self).error,
    {
        toggle_id(&mut self.member_ids, id);
    }

    /// Whether the operator `id` is a member.
    pub fn is_member(&self, id: &str) -> (r: bool)
        ensures
            r == ids_view(self.member_ids@).contains(id@),
    {
        contains_id(&self.member_ids, id)
    }

    /// The name field now holds `name`; the error is cleared.
    pub fn set_name(&mut self, name: String)
        ensures
            final(self).name == name,
            final(self).member_ids == old(self).member_ids,
            final(self).avatar_url == old(self).avatar_url,
            final(self).error is None,
    {
        self.name = name;
        self.error = None;
    }

    /// A new avatar was loaded.
    pub fn set_avatar(&mut self, url: String)
        ensures
            final(self).avatar_url == url,
            final(self).member_ids == old(self).member_ids,
            final(self).name == old(self).name,
            final(self).error == old(self).error,
    {
        self.avatar_url = url;
    }

    /// The "clear avatar" button.
    pub fn clear_avatar(&mut self)
        ensures
            final(self).avatar_url@.len() == 0,
            final(self).member_ids == old(self).member_ids,
            final(self).name == old(self).name,
            final(self).error == old(self).error,
    {
        self.avatar_url = String::new();
    }

    /// The confirm button: the members, trimmed name and avatar to save, or,
    /// when the name is blank, nothing and the error set.
    pub fn confirm(&mut self) -> (r: Option<OpsSelection>)
        ensures
            final(self).member_ids == old(self).member_ids,
            final(self).name == old(self).name,
            final(self).avatar_url == old(self).avatar_url,
            trimmed(old(self).name@).len() == 0 ==> r is None && final(self).error == Some(
                FormError::GroupNameRequired,
            ),
            trimmed(old(self).name@).len() > 0 ==> {
                &&& final(self).error == old(self).error
                &&& r matches Some(sel)
                &&& ids_view(sel.ops@) == ids_view(old(self).member_ids@)
                &&& sel.name@ == trimmed(old(self).name@)
                &&& sel.avatar_url@ == old(self).avatar_url@
            },
    {
        let name = trim(self.name.as_str());
        if name.is_empty() {
            self.error = Some(FormError::GroupNameRequired);
            None
        } else {
            Some(
                OpsSelection {
                    ops: clone_ids(&self.member_ids),
                    name: name.to_owned(),
                    avatar_url: self.avatar_url.clone(),
                },
            )
        }
    }
}

} // verus!
