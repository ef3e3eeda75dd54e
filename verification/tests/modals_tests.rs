use baker::modals::{
    choice_button_class, insert_message_step, modal_content_style, reaction_to_add,
    replay_settings_from_inputs, FormError, GroupSettingsForm, InsertMessageAction,
    InsertMessageEvent, InsertMessageForm, NewChatForm, NewChatSelection, ReplayIntervalMode,
    ReplaySettings, SenderPicker, DEFAULT_FIXED_MS, DEFAULT_GAP_MS, DEFAULT_PER_CHAR_MS,
};
use baker::roster::{Contact, Operator};

fn op(id: &str, name: &str) -> Operator {
    Operator { id: id.to_string(), name: name.to_string(), avatar_url: String::new() }
}

fn ids(v: &[&str]) -> Vec<String> {
    v.iter().map(|s| s.to_string()).collect()
}

#[test]
fn content_style_uses_the_given_width() {
    assert_eq!(modal_content_style(None), "w-full max-w-[340px] mx-auto");
    assert_eq!(modal_content_style(Some(960)), "w-full max-w-[960px] mx-auto");
    assert_eq!(modal_content_style(Some(1280)), "w-full max-w-[1280px] mx-auto");
    assert_eq!(modal_content_style(Some(0)), "w-full max-w-[0px] mx-auto");
}

#[test]
fn choice_buttons_are_filled_when_chosen() {
    assert_eq!(choice_button_class(true), "bg-[#fdfc00] text-black");
    assert_eq!(choice_button_class(false), "bg-[#fdfc00]/0 text-black");
}

#[test]
fn default_inputs_give_default_settings() {
    let s = replay_settings_from_inputs(ReplayIntervalMode::Fixed, "800", "40", "200");
    assert_eq!(
        s,
        ReplaySettings { mode: ReplayIntervalMode::Fixed, fixed_ms: 800, per_char_ms: 40, gap_ms: 200 }
    );
}

#[test]
fn unreadable_inputs_fall_back_to_defaults() {
    let s = replay_settings_from_inputs(ReplayIntervalMode::PerChar, "", "-5", "1.5");
    assert_eq!(s.mode, ReplayIntervalMode::PerChar);
    assert_eq!(s.fixed_ms, DEFAULT_FIXED_MS);
    assert_eq!(s.per_char_ms, DEFAULT_PER_CHAR_MS);
    assert_eq!(s.gap_ms, DEFAULT_GAP_MS);
    let t = replay_settings_from_inputs(ReplayIntervalMode::Fixed, "+1000", "0", "18446744073709551616");
    assert_eq!(t.fixed_ms, 1000);
    assert_eq!(t.per_char_ms, 0);
    assert_eq!(t.gap_ms, 200);
}

#[test]
fn blank_reactions_are_not_added() {
    assert_eq!(reaction_to_add(&"  ".to_string()), None);
    assert_eq!(reaction_to_add(&"".to_string()), None);
    assert_eq!(reaction_to_add(&" 👍 ".to_string()), Some(" 👍 ".to_string()));
}

#[test]
fn sender_picker_reports_the_choice() {
    let mut p = SenderPicker::new();
    assert_eq!(p.confirm(), None);
    p.select("7".to_string());
    assert!(p.is_selected("7"));
    assert!(!p.is_selected("8"));
    assert_eq!(p.confirm(), Some("7".to_string()));
}

fn step(
    form: InsertMessageForm,
    members: &Vec<Operator>,
    e: InsertMessageEvent,
) -> (InsertMessageForm, InsertMessageAction) {
    insert_message_step(form, members, e)
}

fn save_of(a: InsertMessageAction) -> Option<(String, Option<String>)> {
    match a {
        InsertMessageAction::Save { content, sender } => Some((content, sender)),
        _ => None,
    }
}

#[test]
fn own_messages_are_saved_without_sender() {
    let members = vec![op("1", "A")];
    let (f, a) = step(InsertMessageForm::new(), &members, InsertMessageEvent::Edit("hi".to_string()));
    assert!(matches!(a, InsertMessageAction::Nothing));
    let (_, a) = step(f, &members, InsertMessageEvent::Confirm);
    assert_eq!(save_of(a), Some(("hi".to_string(), None)));
}

#[test]
fn blank_messages_are_not_saved() {
    let members = vec![op("1", "A"), op("2", "B")];
    let (f, _) = step(InsertMessageForm::new(), &members, InsertMessageEvent::Edit(" \n".to_string()));
    let (f, a) = step(f, &members, InsertMessageEvent::Confirm);
    assert!(matches!(a, InsertMessageAction::Nothing));
    let (f, _) = step(f, &members, InsertMessageEvent::ChooseOther);
    let (f, a) = step(f, &members, InsertMessageEvent::Confirm);
    assert!(matches!(a, InsertMessageAction::Nothing));
    assert!(!f.picking_sender);
    let (_, a) = step(f, &members, InsertMessageEvent::SenderPicked("1".to_string()));
    assert!(matches!(a, InsertMessageAction::Nothing));
}

#[test]
fn other_party_in_a_one_to_one_chat_is_the_first_member() {
    let members = vec![op("5", "E")];
    let (f, _) = step(InsertMessageForm::new(), &members, InsertMessageEvent::Edit("yo".to_string()));
    let (f, _) = step(f, &members, InsertMessageEvent::ChooseOther);
    let (_, a) = step(f, &members, InsertMessageEvent::Confirm);
    assert_eq!(save_of(a), Some(("yo".to_string(), Some("5".to_string()))));

    let none: Vec<Operator> = Vec::new();
    let (f, _) = step(InsertMessageForm::new(), &none, InsertMessageEvent::Edit("yo".to_string()));
    let (f, _) = step(f, &none, InsertMessageEvent::ChooseOther);
    let (_, a) = step(f, &none, InsertMessageEvent::Confirm);
    assert_eq!(save_of(a), Some(("yo".to_string(), None)));
}

#[test]
fn other_party_in_a_group_is_picked() {
    let members = vec![op("1", "A"), op("2", "B")];
    let (f, _) = step(InsertMessageForm::new(), &members, InsertMessageEvent::Edit("hey".to_string()));
    let (f, _) = step(f, &members, InsertMessageEvent::ChooseOther);
    let (f, a) = step(f, &members, InsertMessageEvent::Confirm);
    assert!(matches!(a, InsertMessageAction::Nothing));
    assert!(f.picking_sender);
    let (f, a) = step(f, &members, InsertMessageEvent::CloseRequested);
    assert!(matches!(a, InsertMessageAction::Nothing));
    let (f, a) = step(f, &members, InsertMessageEvent::SenderPicked("2".to_string()));
    assert!(!f.picking_sender);
    assert_eq!(save_of(a), Some(("hey".to_string(), Some("2".to_string()))));
    let (_, a) = step(f, &members, InsertMessageEvent::CloseRequested);
    assert!(matches!(a, InsertMessageAction::Close));
}

#[test]
fn closing_the_picker_returns_to_the_dialog() {
    let members = vec![op("1", "A"), op("2", "B")];
    let (f, _) = step(InsertMessageForm::new(), &members, InsertMessageEvent::Edit("x".to_string()));
    let (f, _) = step(f, &members, InsertMessageEvent::ChooseOther);
    let (f, _) = step(f, &members, InsertMessageEvent::Confirm);
    let (f, a) = step(f, &members, InsertMessageEvent::PickerClosed);
    assert!(!f.picking_sender);
    assert!(matches!(a, InsertMessageAction::Nothing));
    assert_eq!(f.content, "x");
    let (f, _) = step(f, &members, InsertMessageEvent::ChooseSelf);
    assert!(f.is_self);
}

#[test]
fn a_single_operator_starts_a_one_to_one_chat() {
    let ops = vec![op("1", "A"), op("2", "B")];
    let mut form = NewChatForm::new();
    assert_eq!(form.confirm(&ops), None);
    form.toggle("2");
    assert!(form.is_selected("2"));
    assert_eq!(form.confirm(&ops), Some(NewChatSelection::Single(op("2", "B"))));
    let mut gone = NewChatForm::new();
    gone.toggle("9");
    assert_eq!(gone.confirm(&ops), None);
}

#[test]
fn a_group_needs_a_name() {
    let ops = vec![op("1", "A"), op("2", "B")];
    let mut form = NewChatForm::new();
    form.toggle("2");
    form.toggle("1");
    form.set_group_name("   ".to_string());
    assert_eq!(form.confirm(&ops), None);
    assert_eq!(form.error, Some(FormError::GroupNameRequired));
    form.set_group_name("  Rhodes ".to_string());
    assert_eq!(form.error, None);
    form.set_group_avatar("data:x".to_string());
    assert_eq!(
        form.confirm(&ops),
        Some(NewChatSelection::Group {
            name: "Rhodes".to_string(),
            avatar_url: "data:x".to_string(),
            member_ids: ids(&["2", "1"]),
        })
    );
}

#[test]
fn toggling_clears_the_error() {
    let ops = vec![op("1", "A"), op("2", "B")];
    let mut form = NewChatForm::new();
    form.toggle("1");
    form.toggle("2");
    assert_eq!(form.confirm(&ops), None);
    assert!(form.error.is_some());
    form.toggle("2");
    assert_eq!(form.error, None);
}

#[test]
fn group_settings_save_trimmed_name() {
    let c = Contact {
        id: "g".to_string(),
        name: "Team".to_string(),
        avatar_url: "t.png".to_string(),
        participant_ids: ids(&["1", "2"]),
        participants_selves_ids: Vec::new(),
    };
    let mut form = GroupSettingsForm::for_contact(&c);
    assert!(form.is_member("1"));
    form.toggle("1");
    form.toggle("3");
    form.clear_avatar();
    form.set_name(" New ".to_string());
    let sel = form.confirm().unwrap();
    assert_eq!(sel.ops, ids(&["2", "3"]));
    assert_eq!(sel.name, "New");
    assert_eq!(sel.avatar_url, "");
    form.set_name("\t".to_string());
    assert!(form.confirm().is_none());
    assert_eq!(form.error, Some(FormError::GroupNameRequired));
    form.set_avatar("u".to_string());
    assert_eq!(form.avatar_url, "u");
}

#[test]
fn closing_outside_the_picker_closes_the_dialog() {
    let members = vec![op("1", "A")];
    let (f, a) = step(InsertMessageForm::new(), &members, InsertMessageEvent::CloseRequested);
    assert!(matches!(a, InsertMessageAction::Close));
    assert!(f.is_self);
}

#[test]
fn confirming_never_closes_the_insert_dialog() {
    let members = vec![op("1", "A"), op("2", "B")];
    for is_self in [true, false] {
        for text in ["", "  ", "x"] {
            let form = InsertMessageForm { content: text.to_string(), is_self, picking_sender: false };
            let (_, a) = step(form, &members, InsertMessageEvent::Confirm);
            assert!(!matches!(a, InsertMessageAction::Close));
        }
    }
}

#[test]
fn widest_content_style() {
    assert_eq!(modal_content_style(Some(u32::MAX)), "w-full max-w-[4294967295px] mx-auto");
}

#[test]
fn a_group_name_error_stays_until_the_name_changes() {
    let ops = vec![op("1", "A"), op("2", "B")];
    let mut form = NewChatForm::new();
    form.toggle("1");
    form.toggle("2");
    assert_eq!(form.confirm(&ops), None);
    form.set_group_avatar("a".to_string());
    assert_eq!(form.error, Some(FormError::GroupNameRequired));
    form.set_group_name("G".to_string());
    assert_eq!(form.error, None);
}
