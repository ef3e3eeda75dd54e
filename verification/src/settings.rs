//! The settings page: its sections, the chat background and its style, the
//! operator being edited, and the link to the source repository.

use vstd::prelude::*;
use vstd::string::*;
use crate::roster::{
    Contact, Operator, add_operator, contacts_renamed, contacts_view, is_v4_uuid_text,
    operators_renamed, operators_view, save_operator_edit,
};
use crate::text::str_eq;

verus! {

/// The sections of the settings page.
#[derive(Clone, Copy, Debug, PartialEq, Eq, Structural)]
pub enum SettingsSection {
    Operators,
    Background,
    Language,
    About,
}

/// The class of a section's tab: highlighted when it is the open section.
pub fn tab_class(open: SettingsSection, tab: SettingsSection) -> (r: &'static str)
    ensures
        open == tab ==> r@ == "bg-[#2b2b2b] text-white"@,
        open != tab ==> r@ == "text-gray-400 hover:text-white hover:bg-white/5"@,
{
    if open == tab {
        "bg-[#2b2b2b] text-white"
    } else {
        "text-gray-400 hover:text-white hover:bg-white/5"
    }
}

/// How the chat area's background is drawn.
#[derive(Clone, Copy, Debug, PartialEq, Eq, Structural)]
pub enum BackgroundMode {
    /// Light dots on a dark ground.
    DotDark,
    /// Grey dots on a light ground.
    DotLight,
    /// A colour the user picked.
    CustomColor,
    /// An image the user uploaded.
    CustomImage,
}

/// The chat background.
#[derive(Debug, PartialEq)]
pub struct BackgroundSettings {
    pub mode: BackgroundMode,
    /// A CSS colour, used in custom-colour mode and under a missing custom image.
    pub custom_color: String,
    /// A data URL; empty when no image was uploaded.
    pub custom_image: String,
}

impl Clone for BackgroundSettings {
    fn clone(&self) -> (r: Self)
        ensures
            r.mode == self.mode,
            r.custom_color@ == self.custom_color@,
            r.custom_image@ == self.custom_image@,
    {
        BackgroundSettings {
            mode: self.mode,
            custom_color: self.custom_color.clone(),
            custom_image: self.custom_image.clone(),
        }
    }
}

/// The value that stands for a background mode in the mode selector.
pub open spec fn mode_value(mode: BackgroundMode) -> Seq<char> {
    match mode {
        BackgroundMode::DotDark => "dot_dark"@,
        BackgroundMode::DotLight => "dot_light"@,
        BackgroundMode::CustomColor => "custom_color"@,
        BackgroundMode::CustomImage => "custom_image"@,
    }
}

/// The background mode that a selector value stands for; an unknown value
/// stands for the dark dots.
pub open spec fn mode_for_value(v: Seq<char>) -> BackgroundMode {
    if v == "dot_light"@ {
        BackgroundMode::DotLight
    } else if v == "custom_color"@ {
        BackgroundMode::CustomColor
    } else if v == "custom_image"@ {
        BackgroundMode::CustomImage
    } else {
        BackgroundMode::DotDark
    }
}

/// The selector value of a background mode.
pub fn background_mode_value(mode: BackgroundMode) -> (r: &'static str)
    ensures
        r@ == mode_value(mode),
{
    match mode {
        BackgroundMode::DotDark => "dot_dark",
        BackgroundMode::DotLight => "dot_light",
        BackgroundMode::CustomColor => "custom_color",
        BackgroundMode::CustomImage => "custom_image",
    }
}

/// The background mode chosen in the selector.
pub fn background_mode_from_value(v: &str) -> (r: BackgroundMode)
    ensures
        r == mode_for_value(v@),
{
    if str_eq(v, "dot_light") {
        BackgroundMode::DotLight
    } else if str_eq(v, "custom_color") {
        BackgroundMode::CustomColor
    } else if str_eq(v, "custom_image") {
        BackgroundMode::CustomImage
    } else {
        BackgroundMode::DotDark
    }
}

/// Every background mode reads back from its own selector value.
pub proof fn lemma_mode_value_round_trip(mode: BackgroundMode)
    ensures
        mode_for_value(mode_value(mode)) == mode,
{
    reveal_strlit("dot_dark");
    reveal_strlit("dot_light");
    reveal_strlit("custom_color");
    reveal_strlit("custom_image");
    assert("dot_dark"@ != "dot_light"@ && "dot_dark"@ != "custom_color"@ && "dot_dark"@
        != "custom_image"@) by {
        assert("dot_dark"@[4] != "dot_light"@[4]);
        assert("dot_dark"@.len() != "custom_color"@.len());
        assert("dot_dark"@.len() != "custom_image"@.len());
    }
    assert("dot_light"@ != "custom_color"@ && "dot_light"@ != "custom_image"@) by {
        assert("dot_light"@.len() != "custom_color"@.len());
        assert("dot_light"@.len() != "custom_image"@.len());
    }
    assert("custom_color"@ != "custom_image"@) by {
        assert("custom_color"@[7] != "custom_image"@[7]);
    }
}

/// The CSS style of the chat area for a background.
pub open spec fn background_style_text(bg: BackgroundSettings) -> Seq<char> {
    match bg.mode {
        BackgroundMode::DotDark => "background-color: #1a1a1a; background-image: radial-gradient(#2a2a2a 1px, transparent 1px); background-size: 20px 20px;"@,
        BackgroundMode::DotLight => "background-color: #f2f2f2; background-image: radial-gradient(#d0d0d0 1px, transparent 1px); background-size: 20px 20px;"@,
        BackgroundMode::CustomColor => "background-color: "@ + bg.custom_color@ + ";"@,
        BackgroundMode::CustomImage => if bg.custom_image@.len() == 0 {
            "background-color: "@ + bg.custom_color@ + ";"@
        } else {
            "background-image: url("@ + bg.custom_image@
                + "); background-size: cover; background-position: center; background-repeat: no-repeat; background-color: #1a1a1a;"@
        },
    }
}

/// The CSS style of the chat area: the dot patterns, the custom colour, or the
/// custom image (the custom colour while no image was uploaded).
pub fn background_style(bg: &BackgroundSettings) -> (r: String)
    ensures
        r@ == background_style_text(*bg),
{
    match bg.mode {
        BackgroundMode::DotDark => String::from_str(
            "background-color: #1a1a1a; background-image: radial-gradient(#2a2a2a 1px, transparent 1px); background-size: 20px 20px;",
        ),
        BackgroundMode::DotLight => String::from_str(
            "background-color: #f2f2f2; background-image: radial-gradient(#d0d0d0 1px, transparent 1px); background-size: 20px 20px;",
        ),
        BackgroundMode::CustomColor => {
            let mut r = String::from_str("background-color: ");
            r.append(bg.custom_color.as_str());
            r.append(";");
            r
        },
        BackgroundMode::CustomImage => {
            if bg.custom_image.as_str().is_empty() {
                let mut r = String::from_str("background-color: ");
                r.append(bg.custom_color.as_str());
                r.append(";");
                r
            } else {
                let mut r = String::from_str("background-image: url(");
                r.append(bg.custom_image.as_str());
                r.append(
                    "); background-size: cover; background-position: center; background-repeat: no-repeat; background-color: #1a1a1a;",
                );
                r
            }
        },
    }
}

/// The mode selector now holds `v`: the mode it stands for; colour and image are kept.
pub fn select_background_mode(bg: &mut BackgroundSettings, v: &str)
    ensures
        final(bg).mode == mode_for_value(v@),
        final(bg).custom_color == old(bg).custom_color,
        final(bg).custom_image == old(bg).custom_image,
{
    bg.mode = background_mode_from_value(v);
}

/// A colour was picked: it becomes the custom colour, shown at once.
pub fn set_custom_color(bg: &mut BackgroundSettings, color: String)
    ensures
        final(bg).mode == BackgroundMode::CustomColor,
        final(bg).custom_color == color,
        final(bg).custom_image == old(bg).custom_image,
{
    bg.custom_color = color;
    bg.mode = BackgroundMode::CustomColor;
}

/// An image was uploaded: it becomes the custom image, shown at once.
pub fn set_custom_image(bg: &mut BackgroundSettings, data_url: String)
    ensures
        final(bg).mode == BackgroundMode::CustomImage,
        final(bg).custom_image == data_url,
        final(bg).custom_color == old(bg).custom_color,
{
    bg.custom_image = data_url;
    bg.mode = BackgroundMode::CustomImage;
}

/// The operator being edited on the settings page, with the name and avatar
/// typed so far.
pub struct OperatorEditor {
    pub editing_id: Option<String>,
    pub name: String,
    pub avatar_url: String,
}

impl OperatorEditor {
    /// No operator is being edited.
    pub fn new() -> (r: Self)
        ensures
            r.editing_id is None,
            r.name@.len() == 0,
            r.avatar_url@.len() == 0,
    {
        OperatorEditor { editing_id: None, name: String::new(), avatar_url: String::new() }
    }

    /// The edit button of an operator: its name and avatar fill the fields.
    pub fn start(&mut self, op: &Operator)
        ensures
            final(self).editing_id matches Some(id) && id@ == op.id@,
            final(self).name@ == op.name@,
            final(self).avatar_url@ == op.avatar_url@,
    {
        self.editing_id = Some(op.id.clone());
        self.name = op.name.clone();
        self.avatar_url = op.avatar_url.clone();
    }

    /// The cancel button: nothing is being edited any more.
    pub fn cancel(&mut self)
        ensures
            final(self).editing_id is None,
            final(self).name == old(self).name,
            final(self).avatar_url == old(self).avatar_url,
    {
        self.editing_id = None;
    }

    /// The save button of the operator `id`: the name and avatar typed go to
    /// the operator and to its one-to-one chat, and editing ends.
    pub fn save(&mut self, ops: &mut Vec<Operator>, contacts: &mut Vec<Contact>, id: &str)
        ensures
            operators_view(final(ops)@) == operators_renamed(
                operators_view(old(ops)@),
                id@,
                old(self).name@,
                old(self).avatar_url@,
            ),
            contacts_view(final(contacts)@) == contacts_renamed(
                contacts_view(old(contacts)@),
                id@,
                old(self).name@,
                old(self).avatar_url@,
            ),
            final(self).editing_id is None,
            final(self).name == old(self).name,
            final(self).avatar_url == old(self).avatar_url,
    {
        save_operator_edit(ops, contacts, id, &self.name, &self.avatar_url);
        self.editing_id = None;
    }

    /// Whether the operator `id` is the one being edited.
    pub fn is_editing(&self, id: &str) -> (r: bool)
        ensures
            r == (self.editing_id matches Some(e) && e@ == id@),
    {
        match &self.editing_id {
            Some(e) => str_eq(e.as_str(), id),
            None => false,
        }
    }
}

/// The fields for adding an operator.
pub struct NewOperatorForm {
    pub name: String,
    pub avatar_url: String,
}

impl NewOperatorForm {
    /// Empty fields.
    pub fn new() -> (r: Self)
        ensures
            r.name@.len() == 0,
            r.avatar_url@.len() == 0,
    {
        NewOperatorForm { name: String::new(), avatar_url: String::new() }
    }

    /// The add button: when a name was typed, an operator with that name and
    /// avatar joins the roster under a fresh id and the fields are emptied;
    /// otherwise nothing changes. Returns whether an operator was added.
    pub fn submit(&mut self, ops: &mut Vec<Operator>) -> (added: bool)
        ensures
            added == (old(self).name@.len() > 0),
            added ==> {
                &&& operators_view(final(ops)@).drop_last() == operators_view(old(ops)@)
                &&& operators_view(final(ops)@).len() == old(ops)@.len() + 1
                &&& operators_view(final(ops)@).last().name == old(self).name@
                &&& operators_view(final(ops)@).last().avatar_url == old(self).avatar_url@
                &&& is_v4_uuid_text(operators_view(final(ops)@).last().id)
                &&& forall|k: int|
                    0 <= k < old(ops)@.len() ==> (#[trigger] old(ops)@[k]).id@ != operators_view(
                        final(ops)@,
                    ).last().id
                &&& final(self).name@.len() == 0
                &&& final(self).avatar_url@.len() == 0
            },
            !added ==> final(ops)@ == old(ops)@ && final(self).name == old(self).name
                && final(self).avatar_url == old(self).avatar_url,
    {
        let added = add_operator(ops, &self.name, &self.avatar_url);
        if added {
            self.name = String::new();
            self.avatar_url = String::new();
        }
        added
    }
}

/// The address of the project's repository on GitHub.
pub fn repo_url(owner: &str, repo: &str) -> (r: String)
    ensures
        r@ == "https://github.com/"@ + owner@ + "/"@ + repo@,
{
    let mut r = String::from_str("https://github.com/");
    r.append(owner);
    r.append("/");
    r.append(repo);
    r
}

} // verus!
