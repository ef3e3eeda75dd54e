use baker::roster::{
    add_operator, add_operator_with_id, contains_id, delete_operator, find_contact, find_operator,
    operators_in, position_of_id, save_operator_edit, set_participants_selves, toggle_id, Contact,
    Operator,
};

fn op(id: &str, name: &str, avatar: &str) -> Operator {
    Operator { id: id.to_string(), name: name.to_string(), avatar_url: avatar.to_string() }
}

fn ids(v: &[&str]) -> Vec<String> {
    v.iter().map(|s| s.to_string()).collect()
}

fn contact(id: &str, name: &str, participants: &[&str]) -> Contact {
    Contact {
        id: id.to_string(),
        name: name.to_string(),
        avatar_url: String::new(),
        participant_ids: ids(participants),
        participants_selves_ids: Vec::new(),
    }
}

#[test]
fn toggling_adds_then_removes() {
    let mut list = ids(&["a", "b"]);
    toggle_id(&mut list, "c");
    assert_eq!(list, ids(&["a", "b", "c"]));
    toggle_id(&mut list, "a");
    assert_eq!(list, ids(&["b", "c"]));
    toggle_id(&mut list, "a");
    assert_eq!(list, ids(&["b", "c", "a"]));
}

#[test]
fn toggling_an_unticked_id_twice_restores_the_list() {
    let mut list = ids(&["x", "y"]);
    toggle_id(&mut list, "z");
    toggle_id(&mut list, "z");
    assert_eq!(list, ids(&["x", "y"]));
}

#[test]
fn toggling_removes_only_the_first_occurrence() {
    let mut list = ids(&["a", "b", "a"]);
    toggle_id(&mut list, "a");
    assert_eq!(list, ids(&["b", "a"]));
}

#[test]
fn positions_and_membership() {
    let list = ids(&["a", "b", "b"]);
    assert_eq!(position_of_id(&list, "b"), Some(1));
    assert_eq!(position_of_id(&list, "c"), None);
    assert!(contains_id(&list, "a"));
    assert!(!contains_id(&list, "A"));
}

#[test]
fn find_gives_the_first_match() {
    let ops = vec![op("1", "Amiya", ""), op("2", "Kal'tsit", "k.png"), op("2", "Dup", "")];
    assert_eq!(find_operator(&ops, "2"), Some(op("2", "Kal'tsit", "k.png")));
    assert_eq!(find_operator(&ops, "3"), None);
    let contacts = vec![contact("g", "Group", &["1", "2"])];
    assert_eq!(find_contact(&contacts, "g").map(|c| c.name), Some("Group".to_string()));
    assert!(find_contact(&contacts, "h").is_none());
}

#[test]
fn participants_are_listed_in_roster_order() {
    let ops = vec![op("1", "A", ""), op("2", "B", ""), op("3", "C", "")];
    let shown = operators_in(&ops, &ids(&["3", "1", "9"]));
    assert_eq!(shown, vec![op("1", "A", ""), op("3", "C", "")]);
}

#[test]
fn delete_removes_every_operator_with_the_id() {
    let mut ops = vec![op("1", "A", ""), op("2", "B", ""), op("1", "C", "")];
    delete_operator(&mut ops, "1");
    assert_eq!(ops, vec![op("2", "B", "")]);
    delete_operator(&mut ops, "missing");
    assert_eq!(ops, vec![op("2", "B", "")]);
}

#[test]
fn add_then_delete_restores_the_roster() {
    let before = vec![op("1", "A", "")];
    let mut ops = before.clone();
    assert!(add_operator_with_id(&mut ops, "new".to_string(), &"B".to_string(), &"".to_string()));
    assert_eq!(ops.len(), 2);
    delete_operator(&mut ops, "new");
    assert_eq!(ops, before);
}

#[test]
fn empty_names_are_not_added() {
    let mut ops = vec![op("1", "A", "")];
    assert!(!add_operator(&mut ops, &String::new(), &"x.png".to_string()));
    assert!(!add_operator_with_id(&mut ops, "2".to_string(), &String::new(), &String::new()));
    assert_eq!(ops, vec![op("1", "A", "")]);
}

#[test]
fn whitespace_names_are_added_as_typed() {
    let mut ops = Vec::new();
    assert!(add_operator_with_id(&mut ops, "9".to_string(), &" ".to_string(), &"".to_string()));
    assert_eq!(ops, vec![op("9", " ", "")]);
}

#[test]
fn added_operators_get_v4_uuids() {
    let mut ops = Vec::new();
    assert!(add_operator(&mut ops, &"Amiya".to_string(), &"a.png".to_string()));
    assert!(add_operator(&mut ops, &"Amiya".to_string(), &"a.png".to_string()));
    assert_eq!(ops.len(), 2);
    for o in &ops {
        assert_eq!(o.name, "Amiya");
        assert_eq!(o.avatar_url, "a.png");
        let c: Vec<char> = o.id.chars().collect();
        assert_eq!(c.len(), 36);
        for (k, ch) in c.iter().enumerate() {
            if [8, 13, 18, 23].contains(&k) {
                assert_eq!(*ch, '-');
            } else {
                assert!(ch.is_ascii_hexdigit() && !ch.is_ascii_uppercase());
            }
        }
        assert_eq!(c[14], '4');
        assert!(['8', '9', 'a', 'b'].contains(&c[19]));
    }
    assert_ne!(ops[0].id, ops[1].id);
}

#[test]
fn editing_renames_the_operator_and_its_chat() {
    let mut ops = vec![op("1", "A", ""), op("2", "B", "")];
    let mut contacts = vec![contact("2", "B", &["2"]), contact("g", "Group", &["1", "2"])];
    save_operator_edit(&mut ops, &mut contacts, "2", &"Bee".to_string(), &"bee.png".to_string());
    assert_eq!(ops, vec![op("1", "A", ""), op("2", "Bee", "bee.png")]);
    assert_eq!(contacts[0].name, "Bee");
    assert_eq!(contacts[0].avatar_url, "bee.png");
    assert_eq!(contacts[0].participant_ids, ids(&["2"]));
    assert_eq!(contacts[1].name, "Group");
}

#[test]
fn editing_an_unknown_id_changes_nothing() {
    let mut ops = vec![op("1", "A", "")];
    let mut contacts = vec![contact("1", "A", &["1"])];
    save_operator_edit(&mut ops, &mut contacts, "7", &"Z".to_string(), &"".to_string());
    assert_eq!(ops, vec![op("1", "A", "")]);
    assert_eq!(contacts, vec![contact("1", "A", &["1"])]);
}

#[test]
fn selves_are_recorded_on_the_conversation() {
    let mut contacts = vec![contact("g", "Group", &["1", "2"]), contact("h", "H", &["3"])];
    set_participants_selves(&mut contacts, "g", ids(&["2"]));
    assert_eq!(contacts[0].participants_selves_ids, ids(&["2"]));
    assert!(contacts[1].participants_selves_ids.is_empty());
}

#[test]
fn toggling_flips_membership_and_keeps_ids_distinct() {
    let mut list = ids(&["a", "b", "c"]);
    toggle_id(&mut list, "b");
    assert!(!contains_id(&list, "b"));
    assert!(contains_id(&list, "a") && contains_id(&list, "c"));
    toggle_id(&mut list, "d");
    assert!(contains_id(&list, "d"));
    let mut sorted = list.clone();
    sorted.sort();
    sorted.dedup();
    assert_eq!(sorted.len(), list.len());
}
