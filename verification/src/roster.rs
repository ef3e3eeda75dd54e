//! Operators (the characters a user writes chats for), conversations, and the
//! edits that the roster screens make to them.

use vstd::prelude::*;
use crate::text::{is_digit, str_eq};

verus! {

/// An operator: a character whose messages appear in a chat.
#[derive(Debug, PartialEq)]
pub struct Operator {
    pub id: String,
    pub name: String,
    pub avatar_url: String,
}

/// What an operator holds, as character sequences.
pub struct OperatorView {
    pub id: Seq<char>,
    pub name: Seq<char>,
    pub avatar_url: Seq<char>,
}

impl View for Operator {
    type V = OperatorView;

    open spec fn view(&self) -> OperatorView {
        OperatorView { id: self.id@, name: self.name@, avatar_url: self.avatar_url@ }
    }
}

impl Clone for Operator {
    fn clone(&self) -> (r: Self)
        ensures
            r@ == self@,
    {
        Operator { id: self.id.clone(), name: self.name.clone(), avatar_url: self.avatar_url.clone() }
    }
}

/// A conversation: a single operator or a group of them.
#[derive(Debug, PartialEq)]
pub struct Contact {
    pub id: String,
    pub name: String,
    pub avatar_url: String,
    /// The operators taking part.
    pub participant_ids: Vec<String>,
    /// Among the participants, those whose messages show on the user's own side.
    pub participants_selves_ids: Vec<String>,
}

/// What a conversation holds, as character sequences.
pub struct ContactView {
    pub id: Seq<char>,
    pub name: Seq<char>,
    pub avatar_url: Seq<char>,
    pub participant_ids: Seq<Seq<char>>,
    pub participants_selves_ids: Seq<Seq<char>>,
}

/// The texts of a list of strings.
pub open spec fn ids_view(s: Seq<String>) -> Seq<Seq<char>> {
    s.map_values(|x: String| x@)
}

impl View for Contact {
    type V = ContactView;

    open spec fn view(&self) -> ContactView {
        ContactView {
            id: self.id@,
            name: self.name@,
            avatar_url: self.avatar_url@,
            participant_ids: ids_view(self.participant_ids@),
            participants_selves_ids: ids_view(self.participants_selves_ids@),
        }
    }
}

/// A copy of a list of strings.
pub fn clone_ids(v: &Vec<String>) -> (r: Vec<String>)
    ensures
        ids_view(r@) == ids_view(v@),
{
    let mut r: Vec<String> = Vec::new();
    let n = v.len();
    for i in 0..n
        invariant
            n == v@.len(),
            r@.len() == i,
            forall|k: int| 0 <= k < i ==> (#[trigger] r@[k])@ == v@[k]@,
    {
        r.push(v[i].clone());
    }
    assert(ids_view(r@) =~= ids_view(v@));
    r
}

impl Clone for Contact {
    fn clone(&self) -> (r: Self)
        ensures
            r@ == self@,
    {
        Contact {
            id: self.id.clone(),
            name: self.name.clone(),
            avatar_url: self.avatar_url.clone(),
            participant_ids: clone_ids(&self.participant_ids),
            participants_selves_ids: clone_ids(&self.participants_selves_ids),
        }
    }
}

/// The operators of a list, as views.
pub open spec fn operators_view(s: Seq<Operator>) -> Seq<OperatorView> {
    s.map_values(|o: Operator| o@)
}

/// The conversations of a list, as views.
pub open spec fn contacts_view(s: Seq<Contact>) -> Seq<ContactView> {
    s.map_values(|c: Contact| c@)
}

/// The position of the first element of `s` that satisfies `p`.
pub open spec fn first_index<A>(s: Seq<A>, p: spec_fn(A) -> bool) -> Option<int>
    decreases s.len(),
{
    if s.len() == 0 {
        None
    } else if p(s[0]) {
        Some(0)
    } else {
        match first_index(s.drop_first(), p) {
            Some(i) => Some(i + 1),
            None => None,
        }
    }
}

/// Holds of a text equal to `x`.
pub open spec fn is_text(x: Seq<char>) -> spec_fn(Seq<char>) -> bool {
    |y: Seq<char>| y == x
}

/// Holds of an operator whose id is `id`.
pub open spec fn operator_has_id(id: Seq<char>) -> spec_fn(OperatorView) -> bool {
    |o: OperatorView| o.id == id
}

/// Holds of a conversation whose id is `id`.
pub open spec fn contact_has_id(id: Seq<char>) -> spec_fn(ContactView) -> bool {
    |c: ContactView| c.id == id
}

/// The first match is at `i` when `i` matches and nothing before it does.
pub proof fn lemma_first_index_at<A>(s: Seq<A>, p: spec_fn(A) -> bool, i: int)
    requires
        0 <= i < s.len(),
        p(s[i]),
        forall|j: int| 0 <= j < i ==> !p(#[trigger] s[j]),
    ensures
        first_index(s, p) == Some(i),
    decreases i,
{
    if i > 0 {
        let t = s.drop_first();
        assert(!p(s[0]));
        assert forall|j: int| 0 <= j < i - 1 implies !p(#[trigger] t[j]) by {
            assert(t[j] == s[j + 1]);
        }
        assert(t[i - 1] == s[i]);
        lemma_first_index_at(t, p, i - 1);
    }
}

/// There is no match when no element matches.
pub proof fn lemma_first_index_none<A>(s: Seq<A>, p: spec_fn(A) -> bool)
    requires
        forall|j: int| 0 <= j < s.len() ==> !p(#[trigger] s[j]),
    ensures
        first_index(s, p) is None,
    decreases s.len(),
{
    if s.len() > 0 {
        let t = s.drop_first();
        assert(!p(s[0]));
        assert forall|j: int| 0 <= j < t.len() implies !p(#[trigger] t[j]) by {
            assert(t[j] == s[j + 1]);
        }
        lemma_first_index_none(t, p);
    }
}

/// What the first match is: a matching position with no match before it, or,
/// when there is none, no matching element at all.
pub proof fn lemma_first_index_facts<A>(s: Seq<A>, p: spec_fn(A) -> bool)
    ensures
        match first_index(s, p) {
            Some(i) => 0 <= i < s.len() && p(s[i]) && forall|j: int|
                0 <= j < i ==> !p(#[trigger] s[j]),
            None => forall|j: int| 0 <= j < s.len() ==> !p(#[trigger] s[j]),
        },
    decreases s.len(),
{
    if s.len() > 0 && !p(s[0]) {
        let t = s.drop_first();
        lemma_first_index_facts(t, p);
        match first_index(t, p) {
            Some(i) => {
                assert(t[i] == s[i + 1]);
                assert forall|j: int| 0 <= j < i + 1 implies !p(#[trigger] s[j]) by {
                    if j > 0 {
                        assert(s[j] == t[j - 1]);
                    }
                }
            },
            None => {
                assert forall|j: int| 0 <= j < s.len() implies !p(#[trigger] s[j]) by {
                    if j > 0 {
                        assert(s[j] == t[j - 1]);
                    }
                }
            },
        }
    }
}

/// The position of the first entry of `list` equal to `id`.
pub fn position_of_id(list: &Vec<String>, id: &str) -> (r: Option<usize>)
    ensures
        match r {
            Some(i) => first_index(ids_view(list@), is_text(id@)) == Some(i as int),
            None => first_index(ids_view(list@), is_text(id@)) is None,
        },
{
    let ghost s = ids_view(list@);
    let n = list.len();
    for i in 0..n
        invariant
            n == list@.len(),
            s == ids_view(list@),
            forall|j: int| 0 <= j < i ==> !is_text(id@)(#[trigger] s[j]),
    {
        if str_eq(list[i].as_str(), id) {
            proof {
                lemma_first_index_at(s, is_text(id@), i as int);
            }
            return Some(i);
        }
    }
    proof {
        lemma_first_index_none(s, is_text(id@));
    }
    None
}

/// Whether `list` holds `id`.
pub fn contains_id(list: &Vec<String>, id: &str) -> (r: bool)
    ensures
        r == ids_view(list@).contains(id@),
{
    let p = position_of_id(list, id);
    proof {
        lemma_first_index_facts(ids_view(list@), is_text(id@));
        if ids_view(list@).contains(id@) {
            let k = choose|k: int| 0 <= k < ids_view(list@).len() && ids_view(list@)[k] == id@;
            assert(is_text(id@)(ids_view(list@)[k]));
        }
    }
    p.is_some()
}

/// `s` with `x` toggled: its first occurrence removed when there is one,
/// `x` appended at the end otherwise.
pub open spec fn toggled(s: Seq<Seq<char>>, x: Seq<char>) -> Seq<Seq<char>> {
    match first_index(s, is_text(x)) {
        Some(i) => s.remove(i),
        None => s.push(x),
    }
}

/// Ticks or unticks `id` in a list of chosen ids, as a click on an operator's
/// row in a member picker does.
pub fn toggle_id(list: &mut Vec<String>, id: &str)
    ensures
        ids_view(final(list)@) == toggled(ids_view(old(list)@), id@),
{
    let ghost before = list@;
    proof {
        lemma_first_index_facts(ids_view(list@), is_text(id@));
    }
    match position_of_id(list, id) {
        Some(p) => {
            list.remove(p);
            assert(ids_view(list@) =~= ids_view(before).remove(p as int));
        },
        None => {
            list.push(id.to_owned());
            assert(ids_view(list@) =~= ids_view(before).push(id@));
        },
    }
}

/// Toggling keeps a list free of repeated ids.
pub proof fn lemma_toggle_keeps_distinct(s: Seq<Seq<char>>, x: Seq<char>)
    requires
        s.no_duplicates(),
    ensures
        toggled(s, x).no_duplicates(),
{
    lemma_first_index_facts(s, is_text(x));
    let t = toggled(s, x);
    match first_index(s, is_text(x)) {
        Some(i) => {
            assert forall|a: int, b: int| 0 <= a < t.len() && 0 <= b < t.len() && a != b implies t[a]
                != t[b] by {
                let sa = if a < i { a } else { a + 1 };
                let sb = if b < i { b } else { b + 1 };
                assert(t[a] == s[sa]);
                assert(t[b] == s[sb]);
            }
        },
        None => {
            assert forall|a: int, b: int| 0 <= a < t.len() && 0 <= b < t.len() && a != b implies t[a]
                != t[b] by {
                if a == s.len() {
                    assert(!is_text(x)(s[b]));
                } else if b == s.len() {
                    assert(!is_text(x)(s[a]));
                }
            }
        },
    }
}

proof fn lemma_remove_contains(s: Seq<Seq<char>>, i: int, y: Seq<char>)
    requires
        s.no_duplicates(),
        0 <= i < s.len(),
    ensures
        s.remove(i).contains(y) == (s.contains(y) && s[i] != y),
{
    let t = s.remove(i);
    if t.contains(y) {
        let k = choose|k: int| 0 <= k < t.len() && t[k] == y;
        let sk = if k < i { k } else { k + 1 };
        assert(s[sk] == y);
        assert(sk != i);
    }
    if s.contains(y) && s[i] != y {
        let k = choose|k: int| 0 <= k < s.len() && s[k] == y;
        let tk = if k < i { k } else { k - 1 };
        assert(t[tk] == y);
    }
}

proof fn lemma_push_contains(s: Seq<Seq<char>>, x: Seq<char>, y: Seq<char>)
    ensures
        s.push(x).contains(y) == (s.contains(y) || y == x),
{
    let t = s.push(x);
    if y == x {
        assert(t[s.len() as int] == x);
    }
    if s.contains(y) {
        let k = choose|k: int| 0 <= k < s.len() && s[k] == y;
        assert(t[k] == y);
    }
    if t.contains(y) && y != x {
        let k = choose|k: int| 0 <= k < t.len() && t[k] == y;
        assert(s[k] == y);
    }
}

/// In a list without repeats, toggling an id flips whether the list holds it
/// and leaves every other id as it was.
pub proof fn lemma_toggle_membership(s: Seq<Seq<char>>, x: Seq<char>, y: Seq<char>)
    requires
        s.no_duplicates(),
    ensures
        toggled(s, x).contains(x) == !s.contains(x),
        y != x ==> toggled(s, x).contains(y) == s.contains(y),
{
    lemma_first_index_facts(s, is_text(x));
    match first_index(s, is_text(x)) {
        Some(i) => {
            assert(s[i] == x);
            lemma_remove_contains(s, i, x);
            lemma_remove_contains(s, i, y);
        },
        None => {
            if s.contains(x) {
                let k = choose|k: int| 0 <= k < s.len() && s[k] == x;
                assert(is_text(x)(s[k]));
            }
            lemma_push_contains(s, x, x);
            lemma_push_contains(s, x, y);
        },
    }
}

/// Ticking an id that was not chosen and then unticking it gives back the
/// list as it was.
pub proof fn lemma_toggle_twice_restores(s: Seq<Seq<char>>, x: Seq<char>)
    requires
        !s.contains(x),
    ensures
        toggled(toggled(s, x), x) == s,
{
    lemma_first_index_facts(s, is_text(x));
    match first_index(s, is_text(x)) {
        Some(i) => {
            assert(s[i] == x);
        },
        None => {},
    }
    let t = s.push(x);
    assert forall|j: int| 0 <= j < s.len() implies !is_text(x)(#[trigger] t[j]) by {
        assert(t[j] == s[j]);
        assert(!(s[j] == x)) by {
            if s[j] == x {
                assert(s.contains(x));
            }
        }
    }
    lemma_first_index_at(t, is_text(x), s.len() as int);
    assert(t.remove(s.len() as int) =~= s);
}


/// Where the operator with id `id` stands in `ops`: its first occurrence.
pub fn operator_position(ops: &Vec<Operator>, id: &str) -> (r: Option<usize>)
    ensures
        match r {
            Some(i) => first_index(operators_view(ops@), operator_has_id(id@)) == Some(i as int),
            None => first_index(operators_view(ops@), operator_has_id(id@)) is None,
        },
{
    let ghost s = operators_view(ops@);
    let n = ops.len();
    for i in 0..n
        invariant
            n == ops@.len(),
            s == operators_view(ops@),
            forall|j: int| 0 <= j < i ==> !operator_has_id(id@)(#[trigger] s[j]),
    {
        if str_eq(ops[i].id.as_str(), id) {
            proof {
                lemma_first_index_at(s, operator_has_id(id@), i as int);
            }
            return Some(i);
        }
    }
    proof {
        lemma_first_index_none(s, operator_has_id(id@));
    }
    None
}

/// Where the conversation with id `id` stands in `contacts`: its first occurrence.
pub fn contact_position(contacts: &Vec<Contact>, id: &str) -> (r: Option<usize>)
    ensures
        match r {
            Some(i) => first_index(contacts_view(contacts@), contact_has_id(id@)) == Some(i as int),
            None => first_index(contacts_view(contacts@), contact_has_id(id@)) is None,
        },
{
    let ghost s = contacts_view(contacts@);
    let n = contacts.len();
    for i in 0..n
        invariant
            n == contacts@.len(),
            s == contacts_view(contacts@),
            forall|j: int| 0 <= j < i ==> !contact_has_id(id@)(#[trigger] s[j]),
    {
        if str_eq(contacts[i].id.as_str(), id) {
            proof {
                lemma_first_index_at(s, contact_has_id(id@), i as int);
            }
            return Some(i);
        }
    }
    proof {
        lemma_first_index_none(s, contact_has_id(id@));
    }
    None
}

/// The first operator of `ops` whose id is `id`.
pub open spec fn operator_with_id(ops: Seq<OperatorView>, id: Seq<char>) -> Option<OperatorView> {
    match first_index(ops, operator_has_id(id)) {
        Some(i) => Some(ops[i]),
        None => None,
    }
}

/// The first conversation of `contacts` whose id is `id`.
pub open spec fn contact_with_id(contacts: Seq<ContactView>, id: Seq<char>) -> Option<ContactView> {
    match first_index(contacts, contact_has_id(id)) {
        Some(i) => Some(contacts[i]),
        None => None,
    }
}

/// A copy of the first operator whose id is `id`.
pub fn find_operator(ops: &Vec<Operator>, id: &str) -> (r: Option<Operator>)
    ensures
        match (r, operator_with_id(operators_view(ops@), id@)) {
            (Some(o), Some(v)) => o@ == v,
            (None, None) => true,
            _ => false,
        },
{
    proof {
        lemma_first_index_facts(operators_view(ops@), operator_has_id(id@));
    }
    match operator_position(ops, id) {
        Some(i) => {
            assert(operators_view(ops@)[i as int] == ops@[i as int]@);
            let o = ops[i].clone();
            assert(o@ == ops@[i as int]@);
            Some(o)
        },
        None => None,
    }
}

/// A copy of the first conversation whose id is `id`.
pub fn find_contact(contacts: &Vec<Contact>, id: &str) -> (r: Option<Contact>)
    ensures
        match (r, contact_with_id(contacts_view(contacts@), id@)) {
            (Some(c), Some(v)) => c@ == v,
            (None, None) => true,
            _ => false,
        },
{
    proof {
        lemma_first_index_facts(contacts_view(contacts@), contact_has_id(id@));
    }
    match contact_position(contacts, id) {
        Some(i) => {
            assert(contacts_view(contacts@)[i as int] == contacts@[i as int]@);
            Some(contacts[i].clone())
        },
        None => None,
    }
}

/// Filtering a list that grew by one element.
pub proof fn lemma_filter_push<A>(s: Seq<A>, p: spec_fn(A) -> bool, e: A)
    ensures
        p(e) ==> s.push(e).filter(p) == s.filter(p).push(e),
        !p(e) ==> s.push(e).filter(p) == s.filter(p),
{
    reveal(Seq::filter);
    assert(s.push(e).drop_last() =~= s);
}

/// Holds of an operator whose id is in `ids`.
pub open spec fn operator_in(ids: Seq<Seq<char>>) -> spec_fn(OperatorView) -> bool {
    |o: OperatorView| ids.contains(o.id)
}

/// Holds of an operator whose id is not `id`.
pub open spec fn operator_lacks_id(id: Seq<char>) -> spec_fn(OperatorView) -> bool {
    |o: OperatorView| o.id != id
}

/// The operators whose ids are in `ids`, in roster order: those a
/// conversation's participant list names.
pub fn operators_in(ops: &Vec<Operator>, ids: &Vec<String>) -> (r: Vec<Operator>)
    ensures
        operators_view(r@) == operators_view(ops@).filter(operator_in(ids_view(ids@))),
{
    let ghost s = operators_view(ops@);
    let ghost p = operator_in(ids_view(ids@));
    let mut r: Vec<Operator> = Vec::new();
    let n = ops.len();
    for i in 0..n
        invariant
            n == ops@.len(),
            s == operators_view(ops@),
            p == operator_in(ids_view(ids@)),
            operators_view(r@) == s.take(i as int).filter(p),
    {
        let ghost before = r@;
        let keep = contains_id(ids, ops[i].id.as_str());
        if keep {
            r.push(ops[i].clone());
            assert(operators_view(r@) =~= operators_view(before).push(s[i as int]));
        } else {
            assert(operators_view(r@) =~= operators_view(before));
        }
        proof {
            lemma_filter_push(s.take(i as int), p, s[i as int]);
            assert(s.take(i as int).push(s[i as int]) =~= s.take(i + 1));
        }
    }
    assert(s.take(n as int) =~= s);
    r
}

/// Removes every operator whose id is `id`, keeping the others in order.
pub fn delete_operator(ops: &mut Vec<Operator>, id: &str)
    ensures
        operators_view(final(ops)@) == operators_view(old(ops)@).filter(operator_lacks_id(id@)),
{
    let ghost s = operators_view(ops@);
    let ghost p = operator_lacks_id(id@);
    let mut kept: Vec<Operator> = Vec::new();
    let n = ops.len();
    for i in 0..n
        invariant
            n == ops@.len(),
            s == operators_view(ops@),
            p == operator_lacks_id(id@),
            operators_view(kept@) == s.take(i as int).filter(p),
    {
        let ghost before = kept@;
        if !str_eq(ops[i].id.as_str(), id) {
            kept.push(ops[i].clone());
            assert(operators_view(kept@) =~= operators_view(before).push(s[i as int]));
        } else {
            assert(operators_view(kept@) =~= operators_view(before));
        }
        proof {
            lemma_filter_push(s.take(i as int), p, s[i as int]);
            assert(s.take(i as int).push(s[i as int]) =~= s.take(i + 1));
        }
    }
    assert(s.take(n as int) =~= s);
    *ops = kept;
}

/// `ops` after the first operator with id `id` took the name and avatar given.
pub open spec fn operators_renamed(
    ops: Seq<OperatorView>,
    id: Seq<char>,
    name: Seq<char>,
    avatar_url: Seq<char>,
) -> Seq<OperatorView> {
    match first_index(ops, operator_has_id(id)) {
        Some(i) => ops.update(i, OperatorView { name: name, avatar_url: avatar_url, ..ops[i] }),
        None => ops,
    }
}

/// `contacts` after the first conversation with id `id` took the name and
/// avatar given.
pub open spec fn contacts_renamed(
    contacts: Seq<ContactView>,
    id: Seq<char>,
    name: Seq<char>,
    avatar_url: Seq<char>,
) -> Seq<ContactView> {
    match first_index(contacts, contact_has_id(id)) {
        Some(i) => contacts.update(
            i,
            ContactView { name: name, avatar_url: avatar_url, ..contacts[i] },
        ),
        None => contacts,
    }
}

/// Saves an operator's edited name and avatar, and gives the same name and
/// avatar to the conversation that has the operator's id (the operator's
/// one-to-one chat).
pub fn save_operator_edit(
    ops: &mut Vec<Operator>,
    contacts: &mut Vec<Contact>,
    id: &str,
    name: &String,
    avatar_url: &String,
)
    ensures
        operators_view(final(ops)@) == operators_renamed(
            operators_view(old(ops)@),
            id@,
            name@,
            avatar_url@,
        ),
        contacts_view(final(contacts)@) == contacts_renamed(
            contacts_view(old(contacts)@),
            id@,
            name@,
            avatar_url@,
        ),
{
    proof {
        lemma_first_index_facts(operators_view(ops@), operator_has_id(id@));
        lemma_first_index_facts(contacts_view(contacts@), contact_has_id(id@));
    }
    let ghost ops0 = ops@;
    let ghost contacts0 = contacts@;
    match operator_position(ops, id) {
        Some(i) => {
            let mut op = ops[i].clone();
            op.name = name.clone();
            op.avatar_url = avatar_url.clone();
            let ghost opv = op@;
            assert(operators_view(ops0)[i as int] == ops0[i as int]@);
            assert(opv == OperatorView { name: name@, avatar_url: avatar_url@, ..operators_view(ops0)[i as int] });
            ops.set(i, op);
            assert(ops@ == ops0.update(i as int, ops@[i as int]));
            assert(operators_view(ops@) =~= operators_renamed(
                operators_view(ops0),
                id@,
                name@,
                avatar_url@,
            ));
        },
        None => {},
    }
    match contact_position(contacts, id) {
        Some(i) => {
            let mut c = contacts[i].clone();
            c.name = name.clone();
            c.avatar_url = avatar_url.clone();
            let ghost cv = c@;
            assert(contacts_view(contacts0)[i as int] == contacts0[i as int]@);
            assert(cv == ContactView { name: name@, avatar_url: avatar_url@, ..contacts_view(contacts0)[i as int] });
            contacts.set(i, c);
            assert(contacts_view(contacts@) =~= contacts_renamed(
                contacts_view(contacts0),
                id@,
                name@,
                avatar_url@,
            ));
        },
        None => {},
    }
}

/// `contacts` after the first conversation with id `id` took `selves` as the
/// participants shown on the user's own side.
pub open spec fn contacts_with_selves(
    contacts: Seq<ContactView>,
    id: Seq<char>,
    selves: Seq<Seq<char>>,
) -> Seq<ContactView> {
    match first_index(contacts, contact_has_id(id)) {
        Some(i) => contacts.update(i, ContactView { participants_selves_ids: selves, ..contacts[i] }),
        None => contacts,
    }
}

/// Records which participants of the conversation `contact_id` speak on the
/// user's own side. The conversation must exist.
pub fn set_participants_selves(contacts: &mut Vec<Contact>, contact_id: &str, selves: Vec<String>)
    requires
        first_index(contacts_view(old(contacts)@), contact_has_id(contact_id@)) is Some,
    ensures
        contacts_view(final(contacts)@) == contacts_with_selves(
            contacts_view(old(contacts)@),
            contact_id@,
            ids_view(selves@),
        ),
{
    proof {
        lemma_first_index_facts(contacts_view(contacts@), contact_has_id(contact_id@));
    }
    let ghost contacts0 = contacts@;
    let ghost selves_view = ids_view(selves@);
    match contact_position(contacts, contact_id) {
        Some(i) => {
            let mut c = contacts[i].clone();
            c.participants_selves_ids = selves;
            let ghost cv = c@;
            assert(contacts_view(contacts0)[i as int] == contacts0[i as int]@);
            assert(cv == ContactView { participants_selves_ids: selves_view, ..contacts_view(contacts0)[i as int] });
            contacts.set(i, c);
            assert(contacts_view(contacts@) =~= contacts_with_selves(
                contacts_view(contacts0),
                contact_id@,
                selves_view,
            ));
        },
        None => {},
    }
}

/// Whether `c` is a lowercase hexadecimal digit.
pub open spec fn is_lower_hex(c: char) -> bool {
    is_digit(c) || 97 <= c as u32 <= 102
}

/// A random (version 4) UUID in its hyphenated lowercase text form, such as
/// `67e55044-10b1-426f-9247-bb680e5fe0c8`.
pub open spec fn is_v4_uuid_text(s: Seq<char>) -> bool {
    &&& s.len() == 36
    &&& forall|k: int|
        0 <= k < 36 ==> if k == 8 || k == 13 || k == 18 || k == 23 {
            #[trigger] s[k] == '-'
        } else {
            is_lower_hex(s[k])
        }
    &&& s[14] == '4'
    &&& (s[19] == '8' || s[19] == '9' || s[19] == 'a' || s[19] == 'b')
}

/// A fresh operator id.
///
/// Calls `uuid::Uuid::new_v4` and formats the result with `Display`. The
/// value is random; the contract states only its form, which the crate's
/// source fixes: `new_v4` sets the version nibble to 4 and the variant bits to
/// `10`, and `Display` writes the hyphenated lowercase form.
#[verifier::external_body]
fn new_operator_id() -> (id: String)
    ensures
        is_v4_uuid_text(id@),
{
    uuid::Uuid::new_v4().to_string()
}

/// Adds an operator with the given id when the name is not empty; returns
/// whether it did.
pub fn add_operator_with_id(
    ops: &mut Vec<Operator>,
    id: String,
    name: &String,
    avatar_url: &String,
) -> (added: bool)
    ensures
        added == (name@.len() > 0),
        added ==> operators_view(final(ops)@) == operators_view(old(ops)@).push(
            OperatorView { id: id@, name: name@, avatar_url: avatar_url@ },
        ),
        !added ==> final(ops)@ == old(ops)@,
{
    if name.as_str().is_empty() {
        return false;
    }
    let ghost before = ops@;
    ops.push(Operator { id, name: name.clone(), avatar_url: avatar_url.clone() });
    assert(operators_view(ops@) =~= operators_view(before).push(
        OperatorView { id: ops@.last().id@, name: name@, avatar_url: avatar_url@ },
    ));
    true
}

/// Adds an operator under a fresh random id when the name is not empty (the
/// name is taken as typed, not trimmed); returns whether it did. The new id is
/// a version 4 UUID that no operator of the roster already has.
pub fn add_operator(ops: &mut Vec<Operator>, name: &String, avatar_url: &String) -> (added: bool)
    ensures
        added == (name@.len() > 0),
        added ==> operators_view(final(ops)@).len() == old(ops)@.len() + 1,
        added ==> operators_view(final(ops)@).drop_last() == operators_view(old(ops)@),
        added ==> operators_view(final(ops)@).last().name == name@,
        added ==> operators_view(final(ops)@).last().avatar_url == avatar_url@,
        added ==> is_v4_uuid_text(operators_view(final(ops)@).last().id),
        added ==> forall|k: int|
            0 <= k < old(ops)@.len() ==> (#[trigger] old(ops)@[k]).id@ != operators_view(
                final(ops)@,
            ).last().id,
        !added ==> final(ops)@ == old(ops)@,
{
    if name.as_str().is_empty() {
        return false;
    }
    let id = fresh_operator_id(ops);
    let ghost id_view = id@;
    let added = add_operator_with_id(ops, id, name, avatar_url);
    assert(operators_view(ops@).drop_last() =~= operators_view(old(ops)@));
    added
}


/// After a deletion no operator has the deleted id, and every operator with
/// another id is still there.
pub proof fn lemma_delete_removes_exactly(ops: Seq<OperatorView>, id: Seq<char>, o: OperatorView)
    ensures
        !ops.filter(operator_lacks_id(id)).contains(o) || o.id != id,
        ops.contains(o) && o.id != id ==> ops.filter(operator_lacks_id(id)).contains(o),
{
    broadcast use vstd::seq_lib::group_filter_ensures;

    if ops.filter(operator_lacks_id(id)).contains(o) {
        let k = choose|k: int|
            0 <= k < ops.filter(operator_lacks_id(id)).len() && ops.filter(operator_lacks_id(id))[k]
                == o;
        assert(operator_lacks_id(id)(ops.filter(operator_lacks_id(id))[k]));
    }
    if ops.contains(o) && o.id != id {
        let k = choose|k: int| 0 <= k < ops.len() && ops[k] == o;
        assert(operator_lacks_id(id)(ops[k]));
    }
}

/// Adding an operator under an id that no operator has, then deleting that id,
/// leaves the roster as it was.
pub proof fn lemma_add_then_delete_restores(ops: Seq<OperatorView>, added: OperatorView)
    requires
        forall|k: int| 0 <= k < ops.len() ==> (#[trigger] ops[k]).id != added.id,
    ensures
        ops.push(added).filter(operator_lacks_id(added.id)) == ops,
{
    let p = operator_lacks_id(added.id);
    lemma_filter_push(ops, p, added);
    lemma_filter_keeps_all(ops, p);
}

/// Filtering by a condition that every element meets changes nothing.
pub proof fn lemma_filter_keeps_all<A>(s: Seq<A>, p: spec_fn(A) -> bool)
    requires
        forall|k: int| 0 <= k < s.len() ==> p(#[trigger] s[k]),
    ensures
        s.filter(p) == s,
    decreases s.len(),
{
    reveal(Seq::filter);
    if s.len() > 0 {
        let t = s.drop_last();
        assert forall|k: int| 0 <= k < t.len() implies p(#[trigger] t[k]) by {
            assert(t[k] == s[k]);
        }
        lemma_filter_keeps_all(t, p);
        assert(p(s[s.len() - 1]));
        assert(t.push(s.last()) =~= s);
    }
}


/// Looking an id up in the roster gives nothing exactly when no operator has
/// that id, and otherwise the first operator, counted from the start of the
/// roster, that has it.
pub proof fn lemma_operator_lookup_finds_first(ops: Seq<OperatorView>, id: Seq<char>)
    ensures
        operator_with_id(ops, id) is None <==> forall|k: int| 0 <= k < ops.len() ==> (#[trigger] ops[k]).id != id,
        forall|i: int|
            0 <= i < ops.len() && (#[trigger] ops[i]).id == id && (forall|j: int| 0 <= j < i ==> (#[trigger] ops[j]).id != id)
                ==> operator_with_id(ops, id) == Some(ops[i]),
{
    lemma_first_index_facts(ops, operator_has_id(id));
    assert forall|i: int|
        0 <= i < ops.len() && (#[trigger] ops[i]).id == id && (forall|j: int| 0 <= j < i ==> (#[trigger] ops[j]).id != id)
            implies operator_with_id(ops, id) == Some(ops[i]) by {
        assert forall|j: int| 0 <= j < i implies !operator_has_id(id)(#[trigger] ops[j]) by {
            assert(ops[j].id != id);
        }
        lemma_first_index_at(ops, operator_has_id(id), i);
    }
    if forall|k: int| 0 <= k < ops.len() ==> (#[trigger] ops[k]).id != id {
        assert forall|j: int| 0 <= j < ops.len() implies !operator_has_id(id)(#[trigger] ops[j]) by {
            assert(ops[j].id != id);
        }
        lemma_first_index_none(ops, operator_has_id(id));
    }
}

/// Looking an id up among the conversations gives nothing exactly when none
/// has that id, and otherwise the first one, from the start, that has it.
pub proof fn lemma_contact_lookup_finds_first(contacts: Seq<ContactView>, id: Seq<char>)
    ensures
        contact_with_id(contacts, id) is None <==> forall|k: int| 0 <= k < contacts.len() ==> (#[trigger] contacts[k]).id != id,
        forall|i: int|
            0 <= i < contacts.len() && (#[trigger] contacts[i]).id == id && (forall|j: int| 0 <= j < i ==> (#[trigger] contacts[j]).id != id)
                ==> contact_with_id(contacts, id) == Some(contacts[i]),
{
    lemma_first_index_facts(contacts, contact_has_id(id));
    assert forall|i: int|
        0 <= i < contacts.len() && (#[trigger] contacts[i]).id == id && (forall|j: int| 0 <= j < i ==> (#[trigger] contacts[j]).id != id)
            implies contact_with_id(contacts, id) == Some(contacts[i]) by {
        assert forall|j: int| 0 <= j < i implies !contact_has_id(id)(#[trigger] contacts[j]) by {
            assert(contacts[j].id != id);
        }
        lemma_first_index_at(contacts, contact_has_id(id), i);
    }
    if forall|k: int| 0 <= k < contacts.len() ==> (#[trigger] contacts[k]).id != id {
        assert forall|j: int| 0 <= j < contacts.len() implies !contact_has_id(id)(#[trigger] contacts[j]) by {
            assert(contacts[j].id != id);
        }
        lemma_first_index_none(contacts, contact_has_id(id));
    }
}

/// Saving an edit for `id` keeps the roster's length; the first operator
/// with that id, wherever it stands, keeps its id and takes the new name and
/// avatar; every other operator stays as it was.
pub proof fn lemma_rename_touches_first_match(
    ops: Seq<OperatorView>,
    id: Seq<char>,
    name: Seq<char>,
    avatar_url: Seq<char>,
)
    ensures
        operators_renamed(ops, id, name, avatar_url).len() == ops.len(),
        forall|i: int|
            0 <= i < ops.len() ==> {
                let r = #[trigger] operators_renamed(ops, id, name, avatar_url)[i];
                if ops[i].id == id && (forall|j: int| 0 <= j < i ==> (#[trigger] ops[j]).id != id) {
                    r == OperatorView { id: ops[i].id, name: name, avatar_url: avatar_url }
                } else {
                    r == ops[i]
                }
            },
{
    lemma_first_index_facts(ops, operator_has_id(id));
    assert forall|i: int|
        0 <= i < ops.len() implies {
            let r = #[trigger] operators_renamed(ops, id, name, avatar_url)[i];
            if ops[i].id == id && (forall|j: int| 0 <= j < i ==> (#[trigger] ops[j]).id != id) {
                r == OperatorView { id: ops[i].id, name: name, avatar_url: avatar_url }
            } else {
                r == ops[i]
            }
        } by {
        match first_index(ops, operator_has_id(id)) {
            Some(f) => {
                if ops[i].id == id && (forall|j: int| 0 <= j < i ==> (#[trigger] ops[j]).id != id) {
                    if f < i {
                        assert(ops[f].id != id);
                    }
                    if i < f {
                        assert(!operator_has_id(id)(ops[i]));
                    }
                } else if i == f {
                    assert(operator_has_id(id)(ops[f]));
                }
            },
            None => {},
        }
    }
}

/// Saving an edit for `id` keeps the number of conversations; the first
/// conversation with that id, wherever it stands, takes the new name and
/// avatar and keeps everything else; every other conversation stays as it was.
pub proof fn lemma_chat_rename_touches_first_match(
    contacts: Seq<ContactView>,
    id: Seq<char>,
    name: Seq<char>,
    avatar_url: Seq<char>,
)
    ensures
        contacts_renamed(contacts, id, name, avatar_url).len() == contacts.len(),
        forall|i: int|
            0 <= i < contacts.len() ==> {
                let r = #[trigger] contacts_renamed(contacts, id, name, avatar_url)[i];
                if contacts[i].id == id && (forall|j: int| 0 <= j < i ==> (#[trigger] contacts[j]).id != id) {
                    r == ContactView {
                        id: contacts[i].id,
                        name: name,
                        avatar_url: avatar_url,
                        participant_ids: contacts[i].participant_ids,
                        participants_selves_ids: contacts[i].participants_selves_ids,
                    }
                } else {
                    r == contacts[i]
                }
            },
{
    lemma_first_index_facts(contacts, contact_has_id(id));
    assert forall|i: int|
        0 <= i < contacts.len() implies {
            let r = #[trigger] contacts_renamed(contacts, id, name, avatar_url)[i];
            if contacts[i].id == id && (forall|j: int| 0 <= j < i ==> (#[trigger] contacts[j]).id != id) {
                r == ContactView {
                    id: contacts[i].id,
                    name: name,
                    avatar_url: avatar_url,
                    participant_ids: contacts[i].participant_ids,
                    participants_selves_ids: contacts[i].participants_selves_ids,
                }
            } else {
                r == contacts[i]
            }
        } by {
        match first_index(contacts, contact_has_id(id)) {
            Some(f) => {
                if contacts[i].id == id && (forall|j: int| 0 <= j < i ==> (#[trigger] contacts[j]).id != id) {
                    if f < i {
                        assert(contacts[f].id != id);
                    }
                    if i < f {
                        assert(!contact_has_id(id)(contacts[i]));
                    }
                } else if i == f {
                    assert(contact_has_id(id)(contacts[f]));
                }
            },
            None => {},
        }
    }
}

/// Recording the own-side participants of conversation `id` keeps the number
/// of conversations; the first conversation with that id, wherever it stands,
/// holds exactly the chosen list afterwards, whatever it held before, and
/// keeps every other field; every other conversation stays as it was.
pub proof fn lemma_selves_replace_the_old_choice(
    contacts: Seq<ContactView>,
    id: Seq<char>,
    selves: Seq<Seq<char>>,
)
    ensures
        contacts_with_selves(contacts, id, selves).len() == contacts.len(),
        forall|i: int|
            0 <= i < contacts.len() ==> {
                let r = #[trigger] contacts_with_selves(contacts, id, selves)[i];
                if contacts[i].id == id && (forall|j: int| 0 <= j < i ==> (#[trigger] contacts[j]).id != id) {
                    r == ContactView {
                        id: contacts[i].id,
                        name: contacts[i].name,
                        avatar_url: contacts[i].avatar_url,
                        participant_ids: contacts[i].participant_ids,
                        participants_selves_ids: selves,
                    }
                } else {
                    r == contacts[i]
                }
            },
{
    lemma_first_index_facts(contacts, contact_has_id(id));
    assert forall|i: int|
        0 <= i < contacts.len() implies {
            let r = #[trigger] contacts_with_selves(contacts, id, selves)[i];
            if contacts[i].id == id && (forall|j: int| 0 <= j < i ==> (#[trigger] contacts[j]).id != id) {
                r == ContactView {
                    id: contacts[i].id,
                    name: contacts[i].name,
                    avatar_url: contacts[i].avatar_url,
                    participant_ids: contacts[i].participant_ids,
                    participants_selves_ids: selves,
                }
            } else {
                r == contacts[i]
            }
        } by {
        match first_index(contacts, contact_has_id(id)) {
            Some(f) => {
                if contacts[i].id == id && (forall|j: int| 0 <= j < i ==> (#[trigger] contacts[j]).id != id) {
                    if f < i {
                        assert(contacts[f].id != id);
                    }
                    if i < f {
                        assert(!contact_has_id(id)(contacts[i]));
                    }
                } else if i == f {
                    assert(contact_has_id(id)(contacts[f]));
                }
            },
            None => {},
        }
    }
}

/// An operator of the roster is among a conversation's listed participants
/// exactly when its id occurs somewhere in the participant list, and the
/// listing holds no operator that the roster lacks.
pub proof fn lemma_participants_listed_exactly(
    ops: Seq<OperatorView>,
    ids: Seq<Seq<char>>,
    o: OperatorView,
)
    ensures
        operator_in(ids)(o) <==> exists|j: int| 0 <= j < ids.len() && ids[j] == o.id,
        ops.filter(operator_in(ids)).contains(o) <==> (ops.contains(o) && exists|j: int|
            0 <= j < ids.len() && ids[j] == o.id),
{
    broadcast use vstd::seq_lib::group_filter_ensures;

    let p = operator_in(ids);
    if ops.filter(p).contains(o) {
        let k = choose|k: int| 0 <= k < ops.filter(p).len() && ops.filter(p)[k] == o;
        assert(p(ops.filter(p)[k]));
        ops.lemma_filter_contains_rev(p, o);
    }
    if ops.contains(o) && ids.contains(o.id) {
        let k = choose|k: int| 0 <= k < ops.len() && ops[k] == o;
        assert(p(ops[k]));
    }
}


/// The lowercase hexadecimal digit for `v`, which is below sixteen.
pub open spec fn hex_char(v: nat) -> char {
    if v < 10 {
        (v + 48) as char
    } else {
        (v + 87) as char
    }
}

/// The four bits of `k` that start `shift` bits from the low end.
pub open spec fn nibble(k: u64, shift: u64) -> nat {
    ((k >> shift) & 15u64) as nat
}

/// The upper 32 bits of `k` as eight hexadecimal digits.
pub open spec fn upper_hex(k: u64) -> Seq<char> {
    seq![
        hex_char(nibble(k, 60)), hex_char(nibble(k, 56)), hex_char(nibble(k, 52)),
        hex_char(nibble(k, 48)), hex_char(nibble(k, 44)), hex_char(nibble(k, 40)),
        hex_char(nibble(k, 36)), hex_char(nibble(k, 32)),
    ]
}

/// The lower 32 bits of `k` as eight hexadecimal digits.
pub open spec fn lower_hex(k: u64) -> Seq<char> {
    seq![
        hex_char(nibble(k, 28)), hex_char(nibble(k, 24)), hex_char(nibble(k, 20)),
        hex_char(nibble(k, 16)), hex_char(nibble(k, 12)), hex_char(nibble(k, 8)),
        hex_char(nibble(k, 4)), hex_char(nibble(k, 0)),
    ]
}

/// A version 4 UUID text that spells `k` in its first and last eight digits
/// and `e` in the digit after the variant: the ids tried when the random one
/// is already taken.
pub open spec fn spare_id_text(k: u64, e: nat) -> Seq<char> {
    upper_hex(k) + "-0000-4000-8"@ + seq![hex_char(e)] + "00-0000"@ + lower_hex(k)
}

proof fn lemma_hex_char(v: nat)
    requires
        v < 16,
    ensures
        v < 10 ==> hex_char(v) as u32 == v + 48,
        v >= 10 ==> hex_char(v) as u32 == v + 87,
        is_lower_hex(hex_char(v)),
{
}

proof fn lemma_hex_char_injective(a: nat, b: nat)
    requires
        a < 16,
        b < 16,
        hex_char(a) == hex_char(b),
    ensures
        a == b,
{
    lemma_hex_char(a);
    lemma_hex_char(b);
}

proof fn lemma_nibble_small(k: u64, shift: u64)
    by (bit_vector)
    ensures
        (k >> shift) & 15u64 < 16u64,
{
}

proof fn lemma_nibbles_determine(k: u64, m: u64)
    by (bit_vector)
    requires
        (k >> 60u64) & 15u64 == (m >> 60u64) & 15u64,
        (k >> 56u64) & 15u64 == (m >> 56u64) & 15u64,
        (k >> 52u64) & 15u64 == (m >> 52u64) & 15u64,
        (k >> 48u64) & 15u64 == (m >> 48u64) & 15u64,
        (k >> 44u64) & 15u64 == (m >> 44u64) & 15u64,
        (k >> 40u64) & 15u64 == (m >> 40u64) & 15u64,
        (k >> 36u64) & 15u64 == (m >> 36u64) & 15u64,
        (k >> 32u64) & 15u64 == (m >> 32u64) & 15u64,
        (k >> 28u64) & 15u64 == (m >> 28u64) & 15u64,
        (k >> 24u64) & 15u64 == (m >> 24u64) & 15u64,
        (k >> 20u64) & 15u64 == (m >> 20u64) & 15u64,
        (k >> 16u64) & 15u64 == (m >> 16u64) & 15u64,
        (k >> 12u64) & 15u64 == (m >> 12u64) & 15u64,
        (k >> 8u64) & 15u64 == (m >> 8u64) & 15u64,
        (k >> 4u64) & 15u64 == (m >> 4u64) & 15u64,
        (k >> 0u64) & 15u64 == (m >> 0u64) & 15u64,
    ensures
        k == m,
{
}

proof fn lemma_spare_id_shape(k: u64, e: nat)
    requires
        e < 2,
    ensures
        is_v4_uuid_text(spare_id_text(k, e)),
{
    reveal_strlit("-0000-4000-8");
    reveal_strlit("00-0000");
    let t = spare_id_text(k, e);
    let shifts = seq![60u64, 56, 52, 48, 44, 40, 36, 32, 28, 24, 20, 16, 12, 8, 4, 0];
    assert forall|i: int| 0 <= i < 16 implies is_lower_hex(hex_char(nibble(k, #[trigger] shifts[i]))) by {
        lemma_nibble_small(k, shifts[i]);
        lemma_hex_char(nibble(k, shifts[i]));
    }
    assert(is_lower_hex(hex_char(e))) by {
        lemma_hex_char(e);
    }
    assert(t.len() == 36);
    assert forall|p: int|
        0 <= p < 36 implies if p == 8 || p == 13 || p == 18 || p == 23 {
            #[trigger] t[p] == '-'
        } else {
            is_lower_hex(t[p])
        } by {
        if p < 8 {
            assert(t[p] == hex_char(nibble(k, shifts[p])));
        } else if p >= 28 {
            assert(t[p] == hex_char(nibble(k, shifts[p - 20])));
        } else if p == 20 {
            assert(t[p] == hex_char(e));
        } else {
            assert(is_lower_hex('0'));
            assert(is_lower_hex('4'));
            assert(is_lower_hex('8'));
        }
    }
}

proof fn lemma_spare_id_injective(k: u64, e: nat, m: u64, f: nat)
    requires
        e < 16,
        f < 16,
        spare_id_text(k, e) == spare_id_text(m, f),
    ensures
        k == m,
        e == f,
{
    reveal_strlit("-0000-4000-8");
    reveal_strlit("00-0000");
    let a = spare_id_text(k, e);
    let b = spare_id_text(m, f);
    let shifts = seq![60u64, 56, 52, 48, 44, 40, 36, 32, 28, 24, 20, 16, 12, 8, 4, 0];
    assert forall|i: int| 0 <= i < 16 implies nibble(k, #[trigger] shifts[i]) == nibble(m, shifts[i]) by {
        let p = if i < 8 { i } else { i + 20 };
        assert(a[p] == hex_char(nibble(k, shifts[i])));
        assert(b[p] == hex_char(nibble(m, shifts[i])));
        lemma_nibble_small(k, shifts[i]);
        lemma_nibble_small(m, shifts[i]);
        lemma_hex_char_injective(nibble(k, shifts[i]), nibble(m, shifts[i]));
    }
    assert(nibble(k, shifts[0]) == nibble(m, shifts[0]));
    assert(nibble(k, shifts[1]) == nibble(m, shifts[1]));
    assert(nibble(k, shifts[2]) == nibble(m, shifts[2]));
    assert(nibble(k, shifts[3]) == nibble(m, shifts[3]));
    assert(nibble(k, shifts[4]) == nibble(m, shifts[4]));
    assert(nibble(k, shifts[5]) == nibble(m, shifts[5]));
    assert(nibble(k, shifts[6]) == nibble(m, shifts[6]));
    assert(nibble(k, shifts[7]) == nibble(m, shifts[7]));
    assert(nibble(k, shifts[8]) == nibble(m, shifts[8]));
    assert(nibble(k, shifts[9]) == nibble(m, shifts[9]));
    assert(nibble(k, shifts[10]) == nibble(m, shifts[10]));
    assert(nibble(k, shifts[11]) == nibble(m, shifts[11]));
    assert(nibble(k, shifts[12]) == nibble(m, shifts[12]));
    assert(nibble(k, shifts[13]) == nibble(m, shifts[13]));
    assert(nibble(k, shifts[14]) == nibble(m, shifts[14]));
    assert(nibble(k, shifts[15]) == nibble(m, shifts[15]));
    lemma_nibbles_determine(k, m);
    assert(a[20] == hex_char(e));
    assert(b[20] == hex_char(f));
    lemma_hex_char_injective(e, f);
}


/// The ids of a roster.
pub open spec fn roster_ids(ops: Seq<OperatorView>) -> Seq<Seq<char>> {
    ops.map_values(|o: OperatorView| o.id)
}

/// When every spare id numbered below the roster's length is taken, the spare
/// id of the second series is free: a roster of `n` operators cannot hold
/// `n + 1` different ids.
proof fn lemma_spare_ids_run_out(ids: Seq<Seq<char>>)
    requires
        ids.len() <= u64::MAX,
        forall|j: int| 0 <= j < ids.len() ==> ids.contains(#[trigger] spare_id_text(j as u64, 0)),
    ensures
        !ids.contains(spare_id_text(0, 1)),
{
    broadcast use vstd::seq_lib::seq_to_set_is_finite;

    let n = ids.len();
    if ids.contains(spare_id_text(0, 1)) {
        let cands = Seq::new(
            (n + 1) as nat,
            |i: int| if i < n { spare_id_text(i as u64, 0) } else { spare_id_text(0, 1) },
        );
        assert forall|a: int, b: int|
            0 <= a < cands.len() && 0 <= b < cands.len() && a != b implies cands[a] != cands[b] by {
            if cands[a] == cands[b] {
                let ka: u64 = if a < n { a as u64 } else { 0 };
                let ea: nat = if a < n { 0 } else { 1 };
                let kb: u64 = if b < n { b as u64 } else { 0 };
                let eb: nat = if b < n { 0 } else { 1 };
                lemma_spare_id_injective(ka, ea, kb, eb);
            }
        }
        assert(cands.no_duplicates());
        cands.unique_seq_to_set();
        ids.lemma_cardinality_of_set();
        assert forall|x: Seq<char>| cands.to_set().contains(x) implies ids.to_set().contains(x) by {
            let i = choose|i: int| 0 <= i < cands.len() && cands[i] == x;
            if i < n {
                assert(ids.contains(spare_id_text(i as u64, 0)));
            }
        }
        assert(cands.to_set().subset_of(ids.to_set()));
        vstd::set_lib::lemma_len_subset(cands.to_set(), ids.to_set());
    }
}

fn hex_digit_str(v: u64) -> (r: &'static str)
    requires
        v < 16,
    ensures
        r@ == seq![hex_char(v as nat)],
{
    proof {
        reveal_strlit("0");
        reveal_strlit("1");
        reveal_strlit("2");
        reveal_strlit("3");
        reveal_strlit("4");
        reveal_strlit("5");
        reveal_strlit("6");
        reveal_strlit("7");
        reveal_strlit("8");
        reveal_strlit("9");
        reveal_strlit("a");
        reveal_strlit("b");
        reveal_strlit("c");
        reveal_strlit("d");
        reveal_strlit("e");
        reveal_strlit("f");
    }
    if v == 0 {
        "0"
    } else if v == 1 {
        "1"
    } else if v == 2 {
        "2"
    } else if v == 3 {
        "3"
    } else if v == 4 {
        "4"
    } else if v == 5 {
        "5"
    } else if v == 6 {
        "6"
    } else if v == 7 {
        "7"
    } else if v == 8 {
        "8"
    } else if v == 9 {
        "9"
    } else if v == 10 {
        "a"
    } else if v == 11 {
        "b"
    } else if v == 12 {
        "c"
    } else if v == 13 {
        "d"
    } else if v == 14 {
        "e"
    } else {
        "f"
    }
}

fn push_nibble(s: &mut String, k: u64, shift: u64)
    requires
        shift < 64,
    ensures
        final(s)@ == old(s)@.push(hex_char(nibble(k, shift))),
{
    proof {
        lemma_nibble_small(k, shift);
    }
    s.append(hex_digit_str((k >> shift) & 15));
}

fn spare_id(k: u64, e: u64) -> (s: String)
    requires
        e < 16,
    ensures
        s@ == spare_id_text(k, e as nat),
{
    let mut s = String::new();
    push_nibble(&mut s, k, 60);
    push_nibble(&mut s, k, 56);
    push_nibble(&mut s, k, 52);
    push_nibble(&mut s, k, 48);
    push_nibble(&mut s, k, 44);
    push_nibble(&mut s, k, 40);
    push_nibble(&mut s, k, 36);
    push_nibble(&mut s, k, 32);
    assert(s@ =~= upper_hex(k));
    s.append("-0000-4000-8");
    s.append(hex_digit_str(e));
    s.append("00-0000");
    let ghost front = s@;
    push_nibble(&mut s, k, 28);
    push_nibble(&mut s, k, 24);
    push_nibble(&mut s, k, 20);
    push_nibble(&mut s, k, 16);
    push_nibble(&mut s, k, 12);
    push_nibble(&mut s, k, 8);
    push_nibble(&mut s, k, 4);
    push_nibble(&mut s, k, 0);
    assert(s@ =~= front + lower_hex(k));
    s
}

/// An id for a new operator that no operator of `ops` has: a random version 4
/// UUID, or, should that one already be taken, the first free id of a
/// numbered series of version 4 UUID texts.
fn fresh_operator_id(ops: &Vec<Operator>) -> (id: String)
    ensures
        is_v4_uuid_text(id@),
        forall|k: int| 0 <= k < ops@.len() ==> (#[trigger] ops@[k]).id@ != id@,
{
    let ghost s = operators_view(ops@);
    let ghost ids = roster_ids(s);
    assert forall|k: int| 0 <= k < ops@.len() implies (#[trigger] ops@[k]).id@ == ids[k] by {
        assert(s[k] == ops@[k]@);
    }
    let drawn = new_operator_id();
    proof {
        lemma_first_index_facts(s, operator_has_id(drawn@));
    }
    if operator_position(ops, drawn.as_str()).is_none() {
        assert forall|k: int| 0 <= k < ops@.len() implies (#[trigger] ops@[k]).id@ != drawn@ by {
            assert(s[k] == ops@[k]@);
            assert(!operator_has_id(drawn@)(s[k]));
        }
        return drawn;
    }
    let n = ops.len();
    let mut j: usize = 0;
    while j < n
        invariant
            j <= n,
            n == ops@.len(),
            s == operators_view(ops@),
            ids == roster_ids(s),
            forall|k: int| 0 <= k < ops@.len() ==> (#[trigger] ops@[k]).id@ == ids[k],
            forall|i: int| 0 <= i < j ==> ids.contains(#[trigger] spare_id_text(i as u64, 0)),
        decreases n - j,
    {
        let c = spare_id(j as u64, 0);
        proof {
            lemma_first_index_facts(s, operator_has_id(c@));
            lemma_spare_id_shape(j as u64, 0);
        }
        match operator_position(ops, c.as_str()) {
            None => {
                assert forall|k: int| 0 <= k < ops@.len() implies (#[trigger] ops@[k]).id@ != c@ by {
                    assert(s[k] == ops@[k]@);
                    assert(!operator_has_id(c@)(s[k]));
                }
                return c;
            },
            Some(p) => {
                assert(ids[p as int] == c@);
                assert(ids.contains(spare_id_text(j as u64, 0)));
            },
        }
        j = j + 1;
    }
    let c = spare_id(0, 1);
    proof {
        lemma_spare_id_shape(0, 1);
        assert forall|i: int| 0 <= i < ids.len() implies ids.contains(#[trigger] spare_id_text(i as u64, 0)) by {}
        lemma_spare_ids_run_out(ids);
        assert forall|k: int| 0 <= k < ops@.len() implies (#[trigger] ops@[k]).id@ != c@ by {
            if ops@[k].id@ == c@ {
                assert(ids[k] == c@);
                assert(ids.contains(c@));
            }
        }
    }
    c
}

} // verus!
